//! Ordering of clips on a track by their timeline start.
//!
//! Tracks keep their clips in a stable order by `timeline_start`: a clip
//! placed among clips that start at the same time goes after them.  This
//! module defines that order, proves its properties, and implements it.

use vstd::prelude::*;

use crate::clip::Clip;

verus! {

broadcast use vstd::seq_lib::group_seq_properties, vstd::multiset::group_multiset_axioms;

/// The clips are in non-decreasing order of `timeline_start`.
pub open spec fn sorted_by_start(s: Seq<Clip>) -> bool {
    forall|i: int, j: int| 0 <= i <= j < s.len() ==> s[i].timeline_start <= s[j].timeline_start
}

/// The clips are in strictly increasing order of `timeline_start`.
pub open spec fn strictly_sorted_by_start(s: Seq<Clip>) -> bool {
    forall|i: int, j: int| 0 <= i < j < s.len() ==> s[i].timeline_start < s[j].timeline_start
}

/// `c` inserted into `s` just after the last of the trailing clips that
/// start no later than `c`; for a sorted `s` this is after every clip that
/// starts at or before `c`.
pub open spec fn insert_by_start(s: Seq<Clip>, c: Clip) -> Seq<Clip>
    decreases s.len(),
{
    if s.len() == 0 {
        seq![c]
    } else if s.last().timeline_start <= c.timeline_start {
        s.push(c)
    } else {
        insert_by_start(s.drop_last(), c).push(s.last())
    }
}

/// The stable sort of `s` by `timeline_start`: each clip in turn is
/// inserted after the clips before it that start no later.
pub open spec fn sort_by_start(s: Seq<Clip>) -> Seq<Clip>
    decreases s.len(),
{
    if s.len() == 0 {
        s
    } else {
        insert_by_start(sort_by_start(s.drop_last()), s.last())
    }
}

/// `s` with every clip whose id is `id` removed (the others keep their order).
pub open spec fn remove_id(s: Seq<Clip>, id: u128) -> Seq<Clip>
    decreases s.len(),
{
    if s.len() == 0 {
        s
    } else if s.last().id == id {
        remove_id(s.drop_last(), id)
    } else {
        remove_id(s.drop_last(), id).push(s.last())
    }
}

/// Index of the first clip of `s` whose id is `id`, if any.
pub open spec fn find_clip(s: Seq<Clip>, id: u128) -> Option<int>
    decreases s.len(),
{
    if s.len() == 0 {
        None
    } else if s[0].id == id {
        Some(0)
    } else {
        match find_clip(s.drop_first(), id) {
            Some(k) => Some(k + 1),
            None => None,
        }
    }
}

pub proof fn lemma_find_clip(s: Seq<Clip>, id: u128)
    ensures
        match find_clip(s, id) {
            Some(k) => 0 <= k < s.len() && s[k].id == id && forall|j: int|
                0 <= j < k ==> s[j].id != id,
            None => forall|j: int| 0 <= j < s.len() ==> s[j].id != id,
        },
    decreases s.len(),
{
    if s.len() > 0 {
        lemma_find_clip(s.drop_first(), id);
        if s[0].id != id {
            match find_clip(s.drop_first(), id) {
                Some(k) => {
                    assert forall|j: int| 0 <= j < k + 1 implies s[j].id != id by {
                        if j > 0 {
                            assert(s[j] == s.drop_first()[j - 1]);
                        }
                    }
                },
                None => {
                    assert forall|j: int| 0 <= j < s.len() implies s[j].id != id by {
                        if j > 0 {
                            assert(s[j] == s.drop_first()[j - 1]);
                        }
                    }
                },
            }
        }
    }
}

pub proof fn lemma_insert_by_start_index(s: Seq<Clip>, c: Clip)
    ensures
        exists|k: int|
            #![trigger s.insert(k, c)]
            0 <= k <= s.len() && insert_by_start(s, c) == s.insert(k, c) && (forall|j: int|
                k <= j < s.len() ==> s[j].timeline_start > c.timeline_start) && (k > 0
                ==> s[k - 1].timeline_start <= c.timeline_start),
    decreases s.len(),
{
    if s.len() == 0 {
        assert(insert_by_start(s, c) =~= s.insert(0, c));
    } else if s.last().timeline_start <= c.timeline_start {
        let k = s.len() as int;
        assert(insert_by_start(s, c) =~= s.insert(k, c));
    } else {
        lemma_insert_by_start_index(s.drop_last(), c);
        let t = s.drop_last();
        let k = choose|k: int|
            #![trigger t.insert(k, c)]
            0 <= k <= t.len() && insert_by_start(t, c) == t.insert(k, c) && (forall|j: int|
                k <= j < t.len() ==> t[j].timeline_start > c.timeline_start) && (k > 0
                ==> t[k - 1].timeline_start <= c.timeline_start);
        assert(insert_by_start(s, c) =~= s.insert(k, c));
        assert forall|j: int| k <= j < s.len() implies s[j].timeline_start > c.timeline_start by {
            if j < s.len() - 1 {
                assert(s[j] == t[j]);
            }
        }
        if k > 0 {
            assert(s[k - 1] == t[k - 1]);
        }
    }
}

pub proof fn lemma_insert_by_start_multiset(s: Seq<Clip>, c: Clip)
    ensures
        insert_by_start(s, c).to_multiset() == s.to_multiset().insert(c),
        insert_by_start(s, c).len() == s.len() + 1,
    decreases s.len(),
{
    if s.len() == 0 {
        assert(s.push(c) =~= seq![c]);
        vstd::seq_lib::to_multiset_build(s, c);
    } else if s.last().timeline_start <= c.timeline_start {
        vstd::seq_lib::to_multiset_build(s, c);
    } else {
        lemma_insert_by_start_multiset(s.drop_last(), c);
        vstd::seq_lib::to_multiset_build(insert_by_start(s.drop_last(), c), s.last());
        vstd::seq_lib::to_multiset_build(s.drop_last(), s.last());
        assert(s.drop_last().push(s.last()) =~= s);
    }
}

pub proof fn lemma_insert_by_start_sorted(s: Seq<Clip>, c: Clip)
    requires
        sorted_by_start(s),
    ensures
        sorted_by_start(insert_by_start(s, c)),
{
    lemma_insert_by_start_index(s, c);
    let k = choose|k: int|
        #![trigger s.insert(k, c)]
        0 <= k <= s.len() && insert_by_start(s, c) == s.insert(k, c) && (forall|j: int|
            k <= j < s.len() ==> s[j].timeline_start > c.timeline_start) && (k > 0
            ==> s[k - 1].timeline_start <= c.timeline_start);
    let r = s.insert(k, c);
    assert forall|i: int, j: int| 0 <= i <= j < r.len() implies r[i].timeline_start
        <= r[j].timeline_start by {
        if i < k && j < k {
        } else if i < k && j == k {
            assert(s[i].timeline_start <= s[k - 1].timeline_start);
        } else if i < k {
            assert(r[j] == s[j - 1]);
        } else if i == k && j == k {
        } else if i == k {
            assert(r[j] == s[j - 1]);
        } else {
            assert(r[i] == s[i - 1]);
            assert(r[j] == s[j - 1]);
        }
    }
}

pub proof fn lemma_sort_by_start(s: Seq<Clip>)
    ensures
        sorted_by_start(sort_by_start(s)),
        sort_by_start(s).to_multiset() == s.to_multiset(),
        sort_by_start(s).len() == s.len(),
    decreases s.len(),
{
    if s.len() > 0 {
        lemma_sort_by_start(s.drop_last());
        lemma_insert_by_start_sorted(sort_by_start(s.drop_last()), s.last());
        lemma_insert_by_start_multiset(sort_by_start(s.drop_last()), s.last());
        vstd::seq_lib::to_multiset_build(s.drop_last(), s.last());
        assert(s.drop_last().push(s.last()) =~= s);
    }
}

/// Inserting into a sorted sequence a clip that starts no earlier than every
/// clip appends it.
pub proof fn lemma_insert_by_start_last(s: Seq<Clip>, c: Clip)
    requires
        s.len() == 0 || s.last().timeline_start <= c.timeline_start,
    ensures
        insert_by_start(s, c) == s.push(c),
{
    if s.len() == 0 {
        assert(s.push(c) =~= seq![c]);
    }
}

/// Sorting a sorted sequence leaves it unchanged.
pub proof fn lemma_sort_sorted_identity(s: Seq<Clip>)
    requires
        sorted_by_start(s),
    ensures
        sort_by_start(s) == s,
    decreases s.len(),
{
    if s.len() > 0 {
        let t = s.drop_last();
        assert(sorted_by_start(t));
        lemma_sort_sorted_identity(t);
        if t.len() > 0 {
            assert(t.last() == s[s.len() - 2]);
        }
        lemma_insert_by_start_last(t, s.last());
        assert(t.push(s.last()) =~= s);
    }
}

/// Two sorted sequences holding the same clips are equal when the first
/// has no two clips starting at the same time.
pub proof fn lemma_sorted_permutation_unique(a: Seq<Clip>, b: Seq<Clip>)
    requires
        strictly_sorted_by_start(a),
        sorted_by_start(b),
        a.to_multiset() == b.to_multiset(),
    ensures
        a == b,
    decreases a.len(),
{
    a.to_multiset_ensures();
    b.to_multiset_ensures();
    if a.len() == 0 {
        assert(b.len() == 0);
        assert(a =~= b);
    } else {
        assert(b.len() == a.len());
        let x = a.last();
        let y = b.last();
        assert(a.contains(x));
        assert(a.to_multiset().contains(x));
        assert(b.contains(x));
        let ix = choose|i: int| 0 <= i < b.len() && b[i] == x;
        assert(x.timeline_start <= y.timeline_start);
        assert(b.to_multiset().contains(y));
        assert(a.contains(y));
        let iy = choose|i: int| 0 <= i < a.len() && a[i] == y;
        assert(y.timeline_start <= x.timeline_start) by {
            if iy < a.len() - 1 {
            }
        }
        assert(iy == a.len() - 1) by {
            if iy < a.len() - 1 {
                assert(a[iy].timeline_start < a[a.len() - 1].timeline_start);
            }
        }
        assert(x == y);
        vstd::seq_lib::to_multiset_build(a.drop_last(), x);
        vstd::seq_lib::to_multiset_build(b.drop_last(), y);
        assert(a.drop_last().push(x) =~= a);
        assert(b.drop_last().push(y) =~= b);
        assert(a.drop_last().to_multiset() =~= b.drop_last().to_multiset()) by {
            assert(a.drop_last().to_multiset().insert(x) == b.drop_last().to_multiset().insert(x));
            assert forall|z: Clip| #[trigger] a.drop_last().to_multiset().count(z)
                == b.drop_last().to_multiset().count(z) by {
                assert(a.drop_last().to_multiset().insert(x).count(z) == b.drop_last().to_multiset().insert(x).count(z));
            }
        }
        lemma_sorted_permutation_unique(a.drop_last(), b.drop_last());
        assert(a =~= b);
    }
}

/// Removing an id that no clip carries changes nothing.
pub proof fn lemma_remove_id_absent(s: Seq<Clip>, id: u128)
    requires
        forall|j: int| 0 <= j < s.len() ==> s[j].id != id,
    ensures
        remove_id(s, id) == s,
    decreases s.len(),
{
    if s.len() > 0 {
        lemma_remove_id_absent(s.drop_last(), id);
        assert(s.drop_last().push(s.last()) =~= s);
    }
}

/// Removing the id of the only clip that carries it removes that clip.
pub proof fn lemma_remove_id_unique(s: Seq<Clip>, id: u128, k: int)
    requires
        0 <= k < s.len(),
        s[k].id == id,
        forall|j: int| 0 <= j < s.len() && j != k ==> s[j].id != id,
    ensures
        remove_id(s, id) == s.remove(k),
    decreases s.len(),
{
    if k == s.len() - 1 {
        lemma_remove_id_absent(s.drop_last(), id);
        assert(s.drop_last() =~= s.remove(k));
    } else {
        lemma_remove_id_unique(s.drop_last(), id, k);
        assert(s.drop_last().remove(k).push(s.last()) =~= s.remove(k));
    }
}

/// Sorting `s` with `c` appended inserts `c` into the sorted `s`.
pub proof fn lemma_sort_push(s: Seq<Clip>, c: Clip)
    ensures
        sort_by_start(s.push(c)) == insert_by_start(sort_by_start(s), c),
{
    assert(s.push(c).drop_last() =~= s);
}

/// In a sorted sequence, the place [`insert_by_start`] picks for `c` is
/// after every clip starting no later than `c` and before the others.
pub proof fn lemma_insert_by_start_at(s: Seq<Clip>, c: Clip, k: int)
    requires
        sorted_by_start(s),
        0 <= k <= s.len(),
        forall|j: int| 0 <= j < k ==> s[j].timeline_start <= c.timeline_start,
        forall|j: int| k <= j < s.len() ==> s[j].timeline_start > c.timeline_start,
    ensures
        insert_by_start(s, c) == s.insert(k, c),
{
    lemma_insert_by_start_index(s, c);
    let k2 = choose|k: int|
        #![trigger s.insert(k, c)]
        0 <= k <= s.len() && insert_by_start(s, c) == s.insert(k, c) && (forall|j: int|
            k <= j < s.len() ==> s[j].timeline_start > c.timeline_start) && (k > 0
            ==> s[k - 1].timeline_start <= c.timeline_start);
    if k2 < k {
        assert(s[k2].timeline_start <= c.timeline_start);
    } else if k2 > k {
        assert(s[k2 - 1].timeline_start > c.timeline_start);
    }
}

/// Inserts `c` into `v` at the place [`insert_by_start`] gives.
pub fn insert_clip_by_start(v: &mut Vec<Clip>, c: Clip)
    ensures
        final(v)@ == insert_by_start(old(v)@, c),
{
    let ghost s = v@;
    let mut j = v.len();
    while j > 0 && v[j - 1].timeline_start > c.timeline_start
        invariant
            v@ == s,
            0 <= j <= s.len(),
            insert_by_start(s, c) == insert_by_start(s.take(j as int), c) + s.skip(j as int),
        decreases j,
    {
        proof {
            let t = s.take(j as int);
            assert(t.drop_last() =~= s.take(j - 1));
            assert(t.last() == s[j - 1]);
            assert(insert_by_start(t, c) == insert_by_start(s.take(j - 1), c).push(s[j - 1]));
            assert(insert_by_start(s.take(j - 1), c).push(s[j - 1]) + s.skip(j as int)
                =~= insert_by_start(s.take(j - 1), c) + s.skip(j - 1));
        }
        j = j - 1;
    }
    proof {
        let t = s.take(j as int);
        if j == 0 {
            assert(insert_by_start(t, c) =~= seq![c]);
        } else {
            assert(t.last() == s[j - 1]);
        }
        assert(insert_by_start(t, c) + s.skip(j as int) =~= s.insert(j as int, c));
    }
    v.insert(j, c);
}

/// Sorts `v` by `timeline_start`, stably.
pub fn sort_clips_by_start(v: &mut Vec<Clip>)
    ensures
        final(v)@ == sort_by_start(old(v)@),
{
    let ghost s = v@;
    let mut res: Vec<Clip> = Vec::new();
    let n = v.len();
    let mut i: usize = 0;
    while i < n
        invariant
            v@ == s,
            n == s.len(),
            0 <= i <= n,
            res@ == sort_by_start(s.take(i as int)),
        decreases n - i,
    {
        proof {
            let t = s.take(i + 1);
            assert(t.drop_last() =~= s.take(i as int));
            assert(t.last() == s[i as int]);
        }
        insert_clip_by_start(&mut res, v[i]);
        i = i + 1;
    }
    proof {
        assert(s.take(n as int) =~= s);
    }
    *v = res;
}

/// Removes from `v` every clip whose id is `id`.
pub fn retain_other_ids(v: &mut Vec<Clip>, id: u128)
    ensures
        final(v)@ == remove_id(old(v)@, id),
{
    let ghost s = v@;
    let mut res: Vec<Clip> = Vec::new();
    let n = v.len();
    let mut i: usize = 0;
    while i < n
        invariant
            v@ == s,
            n == s.len(),
            0 <= i <= n,
            res@ == remove_id(s.take(i as int), id),
        decreases n - i,
    {
        proof {
            let t = s.take(i + 1);
            assert(t.drop_last() =~= s.take(i as int));
            assert(t.last() == s[i as int]);
        }
        if v[i].id != id {
            res.push(v[i]);
        }
        i = i + 1;
    }
    proof {
        assert(s.take(n as int) =~= s);
    }
    *v = res;
}

/// Index of the first clip in `v` whose id is `id`.
pub fn position_of_clip(v: &Vec<Clip>, id: u128) -> (r: Option<usize>)
    ensures
        match r {
            Some(k) => find_clip(v@, id) == Some(k as int),
            None => find_clip(v@, id) is None,
        },
{
    proof {
        lemma_find_clip(v@, id);
    }
    let n = v.len();
    let mut i: usize = 0;
    while i < n
        invariant
            n == v@.len(),
            0 <= i <= n,
            forall|j: int| 0 <= j < i ==> v@[j].id != id,
        decreases n - i,
    {
        if v[i].id == id {
            proof {
                lemma_find_first_is(v@, id, i as int);
            }
            return Some(i);
        }
        i = i + 1;
    }
    proof {
        lemma_find_clip_none(v@, id);
    }
    None
}

pub proof fn lemma_find_first_is(s: Seq<Clip>, id: u128, k: int)
    requires
        0 <= k < s.len(),
        s[k].id == id,
        forall|j: int| 0 <= j < k ==> s[j].id != id,
    ensures
        find_clip(s, id) == Some(k),
{
    lemma_find_clip(s, id);
}

pub proof fn lemma_find_clip_none(s: Seq<Clip>, id: u128)
    requires
        forall|j: int| 0 <= j < s.len() ==> s[j].id != id,
    ensures
        find_clip(s, id) is None,
{
    lemma_find_clip(s, id);
}

/// Removing clips by id keeps a sorted sequence sorted, and no clip left
/// starts after the last clip of `s`.
pub proof fn lemma_remove_id_sorted(s: Seq<Clip>, id: u128)
    requires
        sorted_by_start(s),
    ensures
        sorted_by_start(remove_id(s, id)),
        s.len() > 0 ==> forall|k: int|
            0 <= k < remove_id(s, id).len() ==> #[trigger] remove_id(s, id)[k].timeline_start
                <= s.last().timeline_start,
    decreases s.len(),
{
    if s.len() > 0 {
        let d = s.drop_last();
        assert(sorted_by_start(d));
        lemma_remove_id_sorted(d, id);
        let r = remove_id(d, id);
        if d.len() > 0 {
            assert(d.last().timeline_start <= s.last().timeline_start);
        }
        if s.last().id != id {
            assert forall|i: int, j: int| 0 <= i <= j < r.push(s.last()).len() implies r.push(
                s.last(),
            )[i].timeline_start <= r.push(s.last())[j].timeline_start by {
                if j == r.len() {
                    if d.len() == 0 {
                        assert(r.len() == 0);
                    }
                }
            }
        }
    }
}

} // verus!
