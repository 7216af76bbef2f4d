//! Finding the job ids that more than one job file declares.
use vstd::prelude::*;

verus! {

/// The ids of a list of strings, as character sequences.
pub open spec fn ids_view(ids: Seq<String>) -> Seq<Seq<char>> {
    ids.map_values(|s: String| s@)
}

/// How many times `x` occurs in `s`.
pub open spec fn occurrences(s: Seq<Seq<char>>, x: Seq<char>) -> nat
    decreases s.len(),
{
    if s.len() == 0 {
        0
    } else {
        occurrences(s.drop_last(), x) + if s.last() == x {
            1nat
        } else {
            0nat
        }
    }
}

/// The duplicated ids of `s`, each reported once, at the moment it is seen
/// for the second time.
pub open spec fn duplicates_of(s: Seq<Seq<char>>) -> Seq<Seq<char>>
    decreases s.len(),
{
    if s.len() == 0 {
        Seq::empty()
    } else if occurrences(s.drop_last(), s.last()) == 1 {
        duplicates_of(s.drop_last()).push(s.last())
    } else {
        duplicates_of(s.drop_last())
    }
}

proof fn lemma_occurrences_positive(s: Seq<Seq<char>>, x: Seq<char>)
    ensures
        occurrences(s, x) > 0 <==> s.contains(x),
    decreases s.len(),
{
    if s.len() > 0 {
        lemma_occurrences_positive(s.drop_last(), x);
        if s.drop_last().contains(x) {
            let i = choose|i: int| 0 <= i < s.len() - 1 && s.drop_last()[i] == x;
            assert(s[i] == x);
        }
        if s.contains(x) && s.last() != x {
            let i = choose|i: int| 0 <= i < s.len() && s[i] == x;
            assert(s.drop_last()[i] == x);
        }
    }
}

proof fn lemma_push_contains(s: Seq<Seq<char>>, v: Seq<char>, x: Seq<char>)
    ensures
        s.push(v).contains(x) <==> s.contains(x) || x == v,
{
    if s.contains(x) {
        let i = choose|i: int| 0 <= i < s.len() && s[i] == x;
        assert(s.push(v)[i] == x);
    }
    if x == v {
        assert(s.push(v)[s.len() as int] == x);
    }
    if s.push(v).contains(x) && x != v {
        let i = choose|i: int| 0 <= i < s.len() + 1 && s.push(v)[i] == x;
        assert(s[i] == x);
    }
}

/// Whether `v` holds a string equal to `s`.
fn contains_id(v: &Vec<String>, s: &String) -> (r: bool)
    ensures
        r == ids_view(v@).contains(s@),
{
    let n = v.len();
    for i in 0..n
        invariant
            n == v@.len(),
            forall|j: int| 0 <= j < i ==> v@[j]@ != s@,
    {
        if v[i] == *s {
            assert(ids_view(v@)[i as int] == s@);
            return true;
        }
    }
    assert forall|j: int| 0 <= j < ids_view(v@).len() implies ids_view(v@)[j] != s@ by {
        assert(ids_view(v@)[j] == v@[j]@);
    }
    false
}

/// The ids that occur more than once, each once, in the order in which
/// their second occurrence comes.
pub fn duplicate_ids(ids: &Vec<String>) -> (r: Vec<String>)
    ensures
        ids_view(r@) == duplicates_of(ids_view(ids@)),
{
    let ghost all = ids_view(ids@);
    let mut seen: Vec<String> = Vec::new();
    let mut dupes: Vec<String> = Vec::new();
    let n = ids.len();
    for k in 0..n
        invariant
            n == ids@.len(),
            all == ids_view(ids@),
            forall|x: Seq<char>|
                #![trigger ids_view(seen@).contains(x)]
                ids_view(seen@).contains(x) <==> occurrences(all.take(k as int), x) >= 1,
            forall|x: Seq<char>|
                #![trigger ids_view(dupes@).contains(x)]
                ids_view(dupes@).contains(x) <==> occurrences(all.take(k as int), x) >= 2,
            ids_view(dupes@) == duplicates_of(all.take(k as int)),
    {
        let id = &ids[k];
        let ghost pre = all.take(k as int);
        let ghost post = all.take(k + 1);
        assert(post.drop_last() =~= pre);
        assert(post.last() == id@);
        let ghost old_seen = ids_view(seen@);
        let ghost old_dupes = ids_view(dupes@);
        assert(occurrences(post, id@) == occurrences(pre, id@) + 1);
        let in_seen = contains_id(&seen, id);
        if in_seen {
            let in_dupes = contains_id(&dupes, id);
            if !in_dupes {
                dupes.push(id.clone());
                assert(ids_view(dupes@) =~= old_dupes.push(id@));
                proof {
                    assert forall|x: Seq<char>| #![trigger ids_view(dupes@).contains(x)]
                        ids_view(dupes@).contains(x) <==> occurrences(post, x) >= 2 by {
                        lemma_push_contains(old_dupes, id@, x);
                    }
                }
            }
        } else {
            seen.push(id.clone());
            assert(ids_view(seen@) =~= old_seen.push(id@));
            proof {
                assert forall|x: Seq<char>| #![trigger ids_view(seen@).contains(x)]
                    ids_view(seen@).contains(x) <==> occurrences(post, x) >= 1 by {
                    lemma_push_contains(old_seen, id@, x);
                }
            }
        }
        proof {
            assert forall|x: Seq<char>| #![trigger ids_view(seen@).contains(x)]
                ids_view(seen@).contains(x) <==> occurrences(post, x) >= 1 by {
                if in_seen {
                    assert(old_seen.contains(x) <==> occurrences(pre, x) >= 1);
                }
            }
            assert forall|x: Seq<char>| #![trigger ids_view(dupes@).contains(x)]
                ids_view(dupes@).contains(x) <==> occurrences(post, x) >= 2 by {
                assert(old_dupes.contains(x) <==> occurrences(pre, x) >= 2);
                assert(old_dupes.contains(id@) <==> occurrences(pre, id@) >= 2);
                assert(old_seen.contains(id@) <==> occurrences(pre, id@) >= 1);
            }
        }
    }
    assert(all.take(n as int) =~= all);
    dupes
}

/// An id is reported exactly when it occurs at least twice.
pub proof fn law_duplicates_are_repeated_ids(s: Seq<Seq<char>>, x: Seq<char>)
    ensures
        duplicates_of(s).contains(x) <==> occurrences(s, x) >= 2,
    decreases s.len(),
{
    if s.len() > 0 {
        let p = s.drop_last();
        let y = s.last();
        law_duplicates_are_repeated_ids(p, x);
        if occurrences(p, y) == 1 {
            lemma_push_contains(duplicates_of(p), y, x);
        }
    }
}

/// No id is reported twice.
pub proof fn law_duplicates_reported_once(s: Seq<Seq<char>>)
    ensures
        duplicates_of(s).no_duplicates(),
    decreases s.len(),
{
    if s.len() > 0 {
        let p = s.drop_last();
        let y = s.last();
        law_duplicates_reported_once(p);
        if occurrences(p, y) == 1 {
            law_duplicates_are_repeated_ids(p, y);
            let d = duplicates_of(p).push(y);
            assert forall|i: int, j: int| 0 <= i < d.len() && 0 <= j < d.len() && i != j implies d[i]
                != d[j] by {
                if i == d.len() - 1 {
                    assert(duplicates_of(p)[j] == d[j]);
                } else if j == d.len() - 1 {
                    assert(duplicates_of(p)[i] == d[i]);
                }
            }
        }
    }
}

proof fn lemma_two_occurrences(s: Seq<Seq<char>>, x: Seq<char>)
    ensures
        occurrences(s, x) >= 2 <==> exists|i: int, j: int|
            0 <= i < j < s.len() && s[i] == x && s[j] == x,
    decreases s.len(),
{
    if s.len() > 0 {
        let p = s.drop_last();
        lemma_two_occurrences(p, x);
        lemma_occurrences_positive(p, x);
        if exists|i: int, j: int| 0 <= i < j < s.len() && s[i] == x && s[j] == x {
            let (i, j) = choose|i: int, j: int| 0 <= i < j < s.len() && s[i] == x && s[j] == x;
            if j == s.len() - 1 {
                assert(p[i] == x);
            } else {
                assert(p[i] == x && p[j] == x);
            }
        }
        if occurrences(s, x) >= 2 {
            if s.last() == x {
                let i = choose|i: int| 0 <= i < p.len() && p[i] == x;
                assert(s[i] == x && s[s.len() - 1] == x);
            } else {
                let (i, j) = choose|i: int, j: int| 0 <= i < j < p.len() && p[i] == x && p[j] == x;
                assert(s[i] == x && s[j] == x);
            }
        }
    }
}

/// Nothing is reported exactly when every id is distinct.
pub proof fn law_no_duplicates_reported_iff_distinct(s: Seq<Seq<char>>)
    ensures
        duplicates_of(s).len() == 0 <==> s.no_duplicates(),
{
    if duplicates_of(s).len() > 0 {
        let x = duplicates_of(s)[0];
        law_duplicates_are_repeated_ids(s, x);
        lemma_two_occurrences(s, x);
    }
    if !s.no_duplicates() {
        let (i, j) = choose|i: int, j: int| 0 <= i < s.len() && 0 <= j < s.len() && i != j && s[i] == s[j];
        let x = s[i];
        if i < j {
            assert(s[i] == x && s[j] == x);
        } else {
            assert(s[j] == x && s[i] == x);
        }
        lemma_two_occurrences(s, x);
        law_duplicates_are_repeated_ids(s, x);
    }
}

} // verus!
