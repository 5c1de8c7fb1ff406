//! The canonical like-set: an ordered list of remote identifiers,
//! most-recently-liked first, with no identifier listed twice. It is the
//! single source of truth for favorite status; the UI views are
//! projections of it.
//!
//! Identifiers are modelled as their character sequences, so a list of
//! `String` is read through `deep_view` as a `Seq<Seq<char>>`.

use vstd::prelude::*;

verus! {

/// No identifier occurs twice in `l`.
pub open spec fn distinct_ids(l: Seq<Seq<char>>) -> bool {
    forall|i: int, j: int| 0 <= i < j < l.len() ==> l[i] != l[j]
}

/// The position of the first element of `l` equal to `id`, if any.
pub open spec fn find_in(l: Seq<Seq<char>>, id: Seq<char>) -> Option<int>
    decreases l.len(),
{
    if l.len() == 0 {
        None
    } else if l[0] == id {
        Some(0)
    } else {
        match find_in(l.drop_first(), id) {
            Some(i) => Some(i + 1),
            None => None,
        }
    }
}

/// `l` with the first occurrence of `id` removed; `l` itself when `id`
/// does not occur.
pub open spec fn remove_first(l: Seq<Seq<char>>, id: Seq<char>) -> Seq<Seq<char>>
    decreases l.len(),
{
    if l.len() == 0 {
        l
    } else if l[0] == id {
        l.drop_first()
    } else {
        seq![l[0]] + remove_first(l.drop_first(), id)
    }
}

/// `find_in` answers exactly the position of the first occurrence.
pub proof fn lemma_find_in_spec(l: Seq<Seq<char>>, id: Seq<char>)
    ensures
        (find_in(l, id) is None <==> !l.contains(id)),
        (find_in(l, id) matches Some(i) ==> 0 <= i < l.len() && l[i] == id && (forall|j: int|
            0 <= j < i ==> l[j] != id)),
    decreases l.len(),
{
    if l.len() == 0 {
        assert(!l.contains(id));
    } else {
        lemma_find_in_spec(l.drop_first(), id);
        assert(forall|j: int| 0 <= j < l.drop_first().len() ==> l.drop_first()[j] == l[j + 1]);
        if l[0] == id {
        } else {
            match find_in(l.drop_first(), id) {
                Some(k) => {
                    assert(l[k + 1] == id);
                    assert forall|j: int| 0 <= j < k + 1 implies l[j] != id by {
                        if j > 0 {
                            assert(l.drop_first()[j - 1] != id);
                        }
                    }
                },
                None => {},
            }
            if l.drop_first().contains(id) {
                let k = choose|k: int|
                    0 <= k < l.drop_first().len() && l.drop_first()[k] == id;
                assert(l[k + 1] == id);
                assert(l.contains(id));
            }
            if l.contains(id) {
                let k = choose|k: int| 0 <= k < l.len() && l[k] == id;
                assert(l.drop_first()[k - 1] == id);
                assert(l.drop_first().contains(id));
            }
        }
    }
}

/// A position that holds `id` and is preceded by no occurrence of `id` is
/// the position `find_in` answers.
pub proof fn lemma_find_in_at(l: Seq<Seq<char>>, id: Seq<char>, i: int)
    requires
        0 <= i < l.len(),
        l[i] == id,
        forall|j: int| 0 <= j < i ==> l[j] != id,
    ensures
        find_in(l, id) == Some(i),
    decreases l.len(),
{
    if i == 0 {
    } else {
        lemma_find_in_at(l.drop_first(), id, i - 1);
    }
}

/// Removing the first occurrence of `id`, found at position `i`, is
/// removing position `i`.
pub proof fn lemma_remove_first_at(l: Seq<Seq<char>>, id: Seq<char>, i: int)
    requires
        0 <= i < l.len(),
        l[i] == id,
        forall|j: int| 0 <= j < i ==> l[j] != id,
    ensures
        remove_first(l, id) =~= l.remove(i),
    decreases l.len(),
{
    if i == 0 {
        assert(l.drop_first() =~= l.remove(0));
    } else {
        lemma_remove_first_at(l.drop_first(), id, i - 1);
        assert(l.drop_first().remove(i - 1) =~= l.remove(i).drop_first());
        assert(seq![l[0]] + l.remove(i).drop_first() =~= l.remove(i));
    }
}

/// When `id` does not occur, removing it changes nothing.
pub proof fn lemma_remove_first_absent(l: Seq<Seq<char>>, id: Seq<char>)
    requires
        !l.contains(id),
    ensures
        remove_first(l, id) =~= l,
    decreases l.len(),
{
    if l.len() > 0 {
        assert(l[0] != id);
        assert(forall|j: int| 0 <= j < l.drop_first().len() ==> l.drop_first()[j] == l[j + 1]);
        assert(!l.drop_first().contains(id)) by {
            if l.drop_first().contains(id) {
                let k = choose|k: int|
                    0 <= k < l.drop_first().len() && l.drop_first()[k] == id;
                assert(l[k + 1] == id);
            }
        }
        lemma_remove_first_absent(l.drop_first(), id);
        assert(seq![l[0]] + l.drop_first() =~= l);
    }
}

/// Prepending an identifier adds exactly it to the membership.
pub proof fn lemma_insert0_contains(l: Seq<Seq<char>>, id: Seq<char>, x: Seq<char>)
    ensures
        l.insert(0, id).contains(x) <==> (x == id || l.contains(x)),
{
    let l2 = l.insert(0, id);
    assert(l2 =~= seq![id] + l);
    if l2.contains(x) {
        let k = choose|k: int| 0 <= k < l2.len() && l2[k] == x;
        if k > 0 {
            assert(l[k - 1] == x);
        }
    }
    if x == id {
        assert(l2[0] == x);
    }
    if l.contains(x) {
        let k = choose|k: int| 0 <= k < l.len() && l[k] == x;
        assert(l2[k + 1] == x);
    }
}

/// Prepending a fresh identifier keeps the list duplicate-free.
pub proof fn lemma_insert0_distinct(l: Seq<Seq<char>>, id: Seq<char>)
    requires
        distinct_ids(l),
        !l.contains(id),
    ensures
        distinct_ids(l.insert(0, id)),
{
    let l2 = l.insert(0, id);
    assert(l2 =~= seq![id] + l);
    assert forall|i: int, j: int| 0 <= i < j < l2.len() implies l2[i] != l2[j] by {
        if i == 0 {
            assert(l2[j] == l[j - 1]);
            if l2[j] == id {
                assert(l.contains(id));
            }
        } else {
            assert(l2[i] == l[i - 1] && l2[j] == l[j - 1]);
        }
    }
}

/// In a duplicate-free list, removing the first occurrence of an
/// identifier removes exactly it from the membership.
pub proof fn lemma_remove_first_contains(l: Seq<Seq<char>>, id: Seq<char>)
    requires
        distinct_ids(l),
    ensures
        !remove_first(l, id).contains(id),
        forall|x: Seq<char>| x != id ==> (remove_first(l, id).contains(x) <==> l.contains(x)),
        distinct_ids(remove_first(l, id)),
{
    if l.contains(id) {
        lemma_find_in_spec(l, id);
        let i = find_in(l, id)->Some_0;
        lemma_remove_first_at(l, id, i);
        let l2 = l.remove(i);
        assert forall|k: int| 0 <= k < l2.len() implies l2[k] == (if k < i {
            l[k]
        } else {
            l[k + 1]
        }) by {}
        if l2.contains(id) {
            let k = choose|k: int| 0 <= k < l2.len() && l2[k] == id;
            if k < i {
                assert(l[k] == id && l[i] == id);
            } else {
                assert(l[k + 1] == id && l[i] == id);
            }
        }
        assert forall|x: Seq<char>| x != id implies (l2.contains(x) <==> l.contains(x)) by {
            if l2.contains(x) {
                let k = choose|k: int| 0 <= k < l2.len() && l2[k] == x;
                if k < i {
                    assert(l[k] == x);
                } else {
                    assert(l[k + 1] == x);
                }
            }
            if l.contains(x) {
                let k = choose|k: int| 0 <= k < l.len() && l[k] == x;
                if k < i {
                    assert(l2[k] == x);
                } else {
                    assert(k != i);
                    assert(l2[k - 1] == x);
                }
            }
        }
        assert forall|a: int, b: int| 0 <= a < b < l2.len() implies l2[a] != l2[b] by {
            let a2 = if a < i {
                a
            } else {
                a + 1
            };
            let b2 = if b < i {
                b
            } else {
                b + 1
            };
            assert(l2[a] == l[a2] && l2[b] == l[b2]);
        }
    } else {
        lemma_remove_first_absent(l, id);
    }
}

/// Whether `id` occurs in `l`.
pub fn contains_id(l: &Vec<String>, id: &String) -> (r: bool)
    ensures
        r == l.deep_view().contains(id@),
{
    let ghost ids = l.deep_view();
    let mut i: usize = 0;
    while i < l.len()
        invariant
            i <= l.len(),
            ids == l.deep_view(),
            forall|j: int| 0 <= j < i ==> ids[j] != id@,
        decreases l.len() - i,
    {
        if l[i].eq(id) {
            assert(ids[i as int] == id@);
            return true;
        }
        i = i + 1;
    }
    assert(!ids.contains(id@)) by {
        if ids.contains(id@) {
            let k = choose|k: int| 0 <= k < ids.len() && ids[k] == id@;
        }
    }
    false
}

/// The position of the first occurrence of `id` in `l`, if any.
pub fn find_id(l: &Vec<String>, id: &String) -> (r: Option<usize>)
    ensures
        (r matches Some(i) ==> i < l.len() && find_in(l.deep_view(), id@) == Some(i as int)),
        (r is None ==> find_in(l.deep_view(), id@) is None),
{
    let ghost ids = l.deep_view();
    let mut i: usize = 0;
    while i < l.len()
        invariant
            i <= l.len(),
            ids == l.deep_view(),
            forall|j: int| 0 <= j < i ==> ids[j] != id@,
        decreases l.len() - i,
    {
        if l[i].eq(id) {
            proof {
                lemma_find_in_at(ids, id@, i as int);
            }
            return Some(i);
        }
        i = i + 1;
    }
    proof {
        lemma_find_in_spec(ids, id@);
        if ids.contains(id@) {
            let k = choose|k: int| 0 <= k < ids.len() && ids[k] == id@;
        }
    }
    None
}

/// Removes the first occurrence of `id` from `l`; a no-op search when
/// `id` does not occur.
pub fn remove_id(l: &mut Vec<String>, id: &String)
    ensures
        final(l).deep_view() == remove_first(old(l).deep_view(), id@),
{
    let ghost ids = l.deep_view();
    match find_id(l, id) {
        Some(i) => {
            proof {
                lemma_find_in_spec(ids, id@);
                lemma_remove_first_at(ids, id@, i as int);
            }
            l.remove(i);
            assert(l.deep_view() =~= ids.remove(i as int));
        },
        None => {
            proof {
                lemma_find_in_spec(ids, id@);
                lemma_remove_first_absent(ids, id@);
            }
        },
    }
}

/// Prepends `id` to `l`: the most recently liked identifier comes first.
pub fn prepend_id(l: &mut Vec<String>, id: String)
    ensures
        final(l).deep_view() == old(l).deep_view().insert(0, id@),
{
    let ghost ids = l.deep_view();
    l.insert(0, id);
    assert(l.deep_view() =~= ids.insert(0, id@));
}

} // verus!
