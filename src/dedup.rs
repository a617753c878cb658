//! Removal of repeated entries, keeping the first occurrence of each.
use vstd::prelude::*;

verus! {

/// The views of a list of strings.
pub open spec fn views(v: Seq<String>) -> Seq<Seq<char>> {
    v.map_values(|s: String| s@)
}

/// `s` with every entry that already occurred earlier dropped.
pub open spec fn dedup<A>(s: Seq<A>) -> Seq<A>
    decreases s.len(),
{
    if s.len() == 0 {
        s
    } else if s.drop_last().contains(s.last()) {
        dedup(s.drop_last())
    } else {
        dedup(s.drop_last()).push(s.last())
    }
}

/// An entry occurs after dedup exactly when it occurs before.
pub proof fn lemma_dedup_contains<A>(s: Seq<A>, x: A)
    ensures
        dedup(s).contains(x) <==> s.contains(x),
    decreases s.len(),
{
    if s.len() > 0 {
        lemma_dedup_contains(s.drop_last(), x);
        if s.contains(x) && x != s.last() {
            let i = choose|i: int| 0 <= i < s.len() && s[i] == x;
            assert(s.drop_last()[i] == x);
        }
        if s.drop_last().contains(x) {
            let i = choose|i: int| 0 <= i < s.len() - 1 && s.drop_last()[i] == x;
            assert(s[i] == x);
        }
        if !s.drop_last().contains(s.last()) && x == s.last() {
            assert(dedup(s)[dedup(s).len() - 1] == x);
        }
        if dedup(s.drop_last()).contains(x) && !s.drop_last().contains(s.last()) {
            let i = choose|i: int| 0 <= i < dedup(s.drop_last()).len() && dedup(s.drop_last())[i] == x;
            assert(dedup(s)[i] == x);
        }
        if dedup(s).contains(x) && !s.drop_last().contains(s.last()) && x != s.last() {
            let i = choose|i: int| 0 <= i < dedup(s).len() && dedup(s)[i] == x;
            assert(dedup(s.drop_last())[i] == x);
        }
    }
}

/// Dedup never lengthens a sequence.
pub proof fn lemma_dedup_len<A>(s: Seq<A>)
    ensures
        dedup(s).len() <= s.len(),
    decreases s.len(),
{
    if s.len() > 0 {
        lemma_dedup_len(s.drop_last());
    }
}

/// After dedup no entry occurs twice.
pub proof fn lemma_dedup_no_duplicates<A>(s: Seq<A>)
    ensures
        dedup(s).no_duplicates(),
    decreases s.len(),
{
    if s.len() > 0 {
        lemma_dedup_no_duplicates(s.drop_last());
        lemma_dedup_contains(s.drop_last(), s.last());
    }
}

/// A sequence without repeated entries is left as it is.
pub proof fn lemma_dedup_distinct<A>(s: Seq<A>)
    requires
        s.no_duplicates(),
    ensures
        dedup(s) == s,
    decreases s.len(),
{
    if s.len() > 0 {
        let p = s.drop_last();
        assert(p.no_duplicates());
        lemma_dedup_distinct(p);
        assert(!p.contains(s.last()));
        assert(p.push(s.last()) =~= s);
    }
}

/// Dedup applied twice gives what it gives once.
pub proof fn lemma_dedup_idempotent<A>(s: Seq<A>)
    ensures
        dedup(dedup(s)) == dedup(s),
{
    lemma_dedup_no_duplicates(s);
    lemma_dedup_distinct(dedup(s));
}

/// Keeps the first occurrence of each distinct string, in order.
pub fn dedup_strings(items: Vec<String>) -> (r: Vec<String>)
    ensures
        views(r@) == dedup(views(items@)),
{
    let mut out: Vec<String> = Vec::new();
    let mut i: usize = 0;
    while i < items.len()
        invariant
            i <= items@.len(),
            views(out@) == dedup(views(items@).take(i as int)),
        decreases items@.len() - i,
    {
        let ghost before = views(items@).take(i as int);
        let mut seen = false;
        let mut j: usize = 0;
        while j < out.len()
            invariant
                i < items@.len(),
                j <= out@.len(),
                views(out@) == dedup(before),
                seen <==> exists|k: int| 0 <= k < j && out@[k]@ == items@[i as int]@,
            decreases out@.len() - j,
        {
            if out[j] == items[i] {
                seen = true;
            }
            j = j + 1;
        }
        proof {
            let x = items@[i as int]@;
            lemma_dedup_contains(before, x);
            if seen {
                let k = choose|k: int| 0 <= k < j && out@[k]@ == x;
                assert(views(out@)[k] == x);
            }
            if dedup(before).contains(x) {
                let k = choose|k: int| 0 <= k < dedup(before).len() && dedup(before)[k] == x;
                assert(out@[k]@ == x);
            }
            let next = views(items@).take(i + 1);
            assert(next.drop_last() =~= before);
            assert(next.last() == x);
        }
        if !seen {
            let ghost prev = out@;
            out.push(items[i].clone());
            assert(views(out@) =~= views(prev).push(items@[i as int]@));
        }
        i = i + 1;
    }
    assert(views(items@).take(i as int) =~= views(items@));
    out
}

} // verus!
