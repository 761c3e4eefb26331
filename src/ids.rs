use vstd::prelude::*;

verus! {

pub open spec fn differs_from(x: i64) -> spec_fn(i64) -> bool {
    |p: i64| p != x
}

pub open spec fn held_by(keep: Seq<i64>) -> spec_fn(i64) -> bool {
    |p: i64| keep.contains(p)
}

/// `s` without any entry equal to `x`, order kept.
pub open spec fn drop_id(s: Seq<i64>, x: i64) -> Seq<i64> {
    s.filter(differs_from(x))
}

proof fn lemma_drop_id_push(s: Seq<i64>, a: i64, x: i64)
    ensures
        drop_id(s.push(a), x) == if a != x {
            drop_id(s, x).push(a)
        } else {
            drop_id(s, x)
        },
{
    s.lemma_filter_push(a, differs_from(x));
}

/// The entries of `s` that `keep` holds, order kept.
pub open spec fn keep_ids(s: Seq<i64>, keep: Seq<i64>) -> Seq<i64> {
    s.filter(held_by(keep))
}

/// Whether `v` holds `x`.
pub fn contains_id(v: &Vec<i64>, x: i64) -> (b: bool)
    ensures
        b == v@.contains(x),
{
    let mut i: usize = 0;
    while i < v.len()
        invariant
            i <= v.len(),
            forall|j: int| 0 <= j < i ==> v@[j] != x,
        decreases v.len() - i,
    {
        if v[i] == x {
            assert(v@[i as int] == x);
            return true;
        }
        i = i + 1;
    }
    false
}

/// A copy of `v`.
pub fn copy_ids(v: &Vec<i64>) -> (r: Vec<i64>)
    ensures
        r@ == v@,
{
    let mut r: Vec<i64> = Vec::new();
    let mut i: usize = 0;
    while i < v.len()
        invariant
            i <= v.len(),
            r@ == v@.take(i as int),
        decreases v.len() - i,
    {
        r.push(v[i]);
        i = i + 1;
        assert(r@ =~= v@.take(i as int));
    }
    assert(v@.take(v.len() as int) =~= v@);
    r
}

/// `v` without any entry equal to `x`, order kept.
pub fn without_id(v: &Vec<i64>, x: i64) -> (r: Vec<i64>)
    ensures
        r@ == drop_id(v@, x),
{
    let mut r: Vec<i64> = Vec::new();
    let mut i: usize = 0;
    while i < v.len()
        invariant
            i <= v.len(),
            r@ == drop_id(v@.take(i as int), x),
        decreases v.len() - i,
    {
        proof {
            assert(v@.take(i + 1) =~= v@.take(i as int).push(v@[i as int]));
            lemma_drop_id_push(v@.take(i as int), v@[i as int], x);
        }
        if v[i] != x {
            r.push(v[i]);
        }
        i = i + 1;
    }
    assert(v@.take(v.len() as int) =~= v@);
    r
}

/// The entries of `v` that `keep` also holds, in the order of `v`.
pub fn ids_kept(v: &Vec<i64>, keep: &Vec<i64>) -> (r: Vec<i64>)
    ensures
        r@ == keep_ids(v@, keep@),
{
    let mut r: Vec<i64> = Vec::new();
    let mut i: usize = 0;
    while i < v.len()
        invariant
            i <= v.len(),
            r@ == keep_ids(v@.take(i as int), keep@),
        decreases v.len() - i,
    {
        proof {
            assert(v@.take(i + 1) =~= v@.take(i as int).push(v@[i as int]));
            v@.take(i as int).lemma_filter_push(v@[i as int], held_by(keep@));
        }
        if contains_id(keep, v[i]) {
            r.push(v[i]);
        }
        i = i + 1;
    }
    assert(v@.take(v.len() as int) =~= v@);
    r
}

/// Whether every entry of `v` is also in `within`.
pub fn all_within(v: &Vec<i64>, within: &Vec<i64>) -> (b: bool)
    ensures
        b == (forall|k: int| 0 <= k < v@.len() ==> within@.contains(#[trigger] v@[k])),
{
    let mut i: usize = 0;
    while i < v.len()
        invariant
            i <= v.len(),
            forall|k: int| 0 <= k < i ==> within@.contains(#[trigger] v@[k]),
        decreases v.len() - i,
    {
        if !contains_id(within, v[i]) {
            return false;
        }
        i = i + 1;
    }
    true
}

} // verus!
