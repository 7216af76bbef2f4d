//! What every update of the status log keeps.
use vstd::prelude::*;
use crate::status::{
    after_set, is_first_with_id, lemma_first_exists, lemma_position_absent,
    lemma_position_is_first, name_or_empty, position_of, status_of, unique_ids, JobStatusEnum,
    StatusEntry,
};

verus! {

/// When `b` agrees with `a` on the ids of `a`'s positions and holds `x`
/// nowhere beyond them, `x` is first found at the same place in both.
pub proof fn lemma_position_preserved(a: Seq<StatusEntry>, b: Seq<StatusEntry>, x: Seq<char>)
    requires
        a.len() <= b.len(),
        forall|j: int| 0 <= j < a.len() ==> #[trigger] b[j].id == a[j].id,
        forall|j: int| a.len() <= j < b.len() ==> #[trigger] b[j].id != x,
    ensures
        position_of(b, x) == position_of(a, x),
{
    match position_of(a, x) {
        Some(k) => {
            assert(is_first_with_id(a, x, k));
            assert(is_first_with_id(b, x, k)) by {
                assert forall|j: int| 0 <= j < k implies b[j].id != x by {
                    assert(a[j].id != x);
                }
            }
            lemma_position_is_first(b, x, k);
        },
        None => {
            assert forall|j: int| 0 <= j < b.len() implies b[j].id != x by {
                if j < a.len() && a[j].id == x {
                    lemma_first_exists(a, x, j);
                }
            }
            lemma_position_absent(b, x);
        },
    }
}

/// Where the entry for `id` stands after a set: at its old place, or last.
pub proof fn lemma_set_position(
    entries: Seq<StatusEntry>,
    id: Seq<char>,
    name: Option<Seq<char>>,
    status: JobStatusEnum,
)
    ensures
        position_of(after_set(entries, id, name, status), id) == Some(
            match position_of(entries, id) {
                Some(i) => i,
                None => entries.len() as int,
            },
        ),
        after_set(entries, id, name, status)[match position_of(entries, id) {
            Some(i) => i,
            None => entries.len() as int,
        }].status == status,
{
    let after = after_set(entries, id, name, status);
    match position_of(entries, id) {
        Some(i) => {
            assert(is_first_with_id(entries, id, i));
            assert(is_first_with_id(after, id, i)) by {
                assert forall|j: int| 0 <= j < i implies after[j].id != id by {
                    assert(entries[j].id != id);
                }
            }
            lemma_position_is_first(after, id, i);
        },
        None => {
            let n = entries.len() as int;
            assert(is_first_with_id(after, id, n)) by {
                assert forall|j: int| 0 <= j < n implies after[j].id != id by {
                    if entries[j].id == id {
                        lemma_first_exists(entries, id, j);
                    }
                }
            }
            lemma_position_is_first(after, id, n);
        },
    }
}

/// A status just recorded for an id is the status read back for it.
pub proof fn law_set_then_get(
    entries: Seq<StatusEntry>,
    id: Seq<char>,
    name: Option<Seq<char>>,
    status: JobStatusEnum,
)
    ensures
        status_of(after_set(entries, id, name, status), id) == Some(status),
{
    lemma_set_position(entries, id, name, status);
}

/// Recording a status for one id leaves what is read for every other id as
/// it was.
pub proof fn law_set_leaves_other_ids(
    entries: Seq<StatusEntry>,
    id: Seq<char>,
    other: Seq<char>,
    name: Option<Seq<char>>,
    status: JobStatusEnum,
)
    requires
        other != id,
    ensures
        status_of(after_set(entries, id, name, status), other) == status_of(entries, other),
{
    let after = after_set(entries, id, name, status);
    lemma_position_preserved(entries, after, other);
    match position_of(entries, other) {
        Some(k) => {
            assert(is_first_with_id(entries, other, k));
            match position_of(entries, id) {
                Some(i) => {
                    assert(is_first_with_id(entries, id, i));
                    assert(k != i);
                },
                None => {},
            }
        },
        None => {},
    }
}

/// A log whose ids are unique keeps them unique through a set.
pub proof fn law_set_keeps_ids_unique(
    entries: Seq<StatusEntry>,
    id: Seq<char>,
    name: Option<Seq<char>>,
    status: JobStatusEnum,
)
    requires
        unique_ids(entries),
    ensures
        unique_ids(after_set(entries, id, name, status)),
{
    let after = after_set(entries, id, name, status);
    match position_of(entries, id) {
        Some(i) => {
            assert(is_first_with_id(entries, id, i));
            assert forall|a: int, b: int|
                0 <= a < after.len() && 0 <= b < after.len() && a != b implies after[a].id
                != after[b].id by {
                assert(entries[a].id != entries[b].id);
            }
        },
        None => {
            assert forall|a: int, b: int|
                0 <= a < after.len() && 0 <= b < after.len() && a != b implies after[a].id
                != after[b].id by {
                if a < entries.len() && b < entries.len() {
                    assert(entries[a].id != entries[b].id);
                } else if a < entries.len() {
                    if entries[a].id == id {
                        lemma_first_exists(entries, id, a);
                    }
                } else if b < entries.len() {
                    if entries[b].id == id {
                        lemma_first_exists(entries, id, b);
                    }
                }
            }
        },
    }
}

/// Recording the same status twice is recording it once.
pub proof fn law_set_idempotent(
    entries: Seq<StatusEntry>,
    id: Seq<char>,
    name: Option<Seq<char>>,
    status: JobStatusEnum,
)
    ensures
        after_set(after_set(entries, id, name, status), id, name, status) == after_set(
            entries,
            id,
            name,
            status,
        ),
{
    let once = after_set(entries, id, name, status);
    lemma_set_position(entries, id, name, status);
    let p = match position_of(entries, id) {
        Some(i) => i,
        None => entries.len() as int,
    };
    assert(is_first_with_id(once, id, p)) by {
        lemma_position_is_first(once, id, p);
        let k = choose|k: int| is_first_with_id(once, id, k);
        assert(is_first_with_id(once, id, k));
    }
    assert(after_set(once, id, name, status) =~= once);
}

/// A set adds an entry exactly when the id had none, and an entry that was
/// there keeps its id and name; a new one takes the given name.
pub proof fn law_set_shape(
    entries: Seq<StatusEntry>,
    id: Seq<char>,
    name: Option<Seq<char>>,
    status: JobStatusEnum,
)
    ensures
        position_of(entries, id) is None ==> after_set(entries, id, name, status).len()
            == entries.len() + 1 && after_set(entries, id, name, status).last() == (StatusEntry {
            id,
            name: name_or_empty(name),
            status,
        }),
        position_of(entries, id) is Some ==> after_set(entries, id, name, status).len()
            == entries.len(),
        forall|j: int|
            0 <= j < entries.len() ==> #[trigger] after_set(entries, id, name, status)[j].id
                == entries[j].id && after_set(entries, id, name, status)[j].name
                == entries[j].name,
{
}

/// The entries after recording, in order, each `(name, status)` of
/// `updates` for the same id.
pub open spec fn set_in_order(
    entries: Seq<StatusEntry>,
    id: Seq<char>,
    updates: Seq<(Option<Seq<char>>, JobStatusEnum)>,
) -> Seq<StatusEntry>
    decreases updates.len(),
{
    if updates.len() == 0 {
        entries
    } else {
        after_set(
            set_in_order(entries, id, updates.drop_last()),
            id,
            updates.last().0,
            updates.last().1,
        )
    }
}

/// Exactly one entry, the one at `i`, has the id `id`.
pub open spec fn sole_holder(entries: Seq<StatusEntry>, id: Seq<char>, i: int) -> bool {
    &&& 0 <= i < entries.len()
    &&& entries[i].id == id
    &&& forall|j: int| 0 <= j < entries.len() && j != i ==> #[trigger] entries[j].id != id
}

/// Recording statuses one after another for an id the log did not hold
/// appends one entry for it, named by the first record, holding the last
/// status, and leaves the other entries as they were.
pub proof fn law_repeated_sets_one_entry(
    entries: Seq<StatusEntry>,
    id: Seq<char>,
    updates: Seq<(Option<Seq<char>>, JobStatusEnum)>,
)
    requires
        updates.len() >= 1,
        forall|j: int| 0 <= j < entries.len() ==> #[trigger] entries[j].id != id,
    ensures
        set_in_order(entries, id, updates).len() == entries.len() + 1,
        forall|j: int|
            0 <= j < entries.len() ==> #[trigger] set_in_order(entries, id, updates)[j]
                == entries[j],
        set_in_order(entries, id, updates)[entries.len() as int] == (StatusEntry {
            id,
            name: name_or_empty(updates[0].0),
            status: updates.last().1,
        }),
        sole_holder(set_in_order(entries, id, updates), id, entries.len() as int),
        status_of(set_in_order(entries, id, updates), id) == Some(updates.last().1),
    decreases updates.len(),
{
    let n = entries.len() as int;
    let after = set_in_order(entries, id, updates);
    if updates.len() == 1 {
        assert(updates.drop_last().len() == 0);
        assert(set_in_order(entries, id, updates.drop_last()) == entries);
        lemma_position_absent(entries, id);
        assert(updates.last() == updates[0]);
    } else {
        let prev = set_in_order(entries, id, updates.drop_last());
        law_repeated_sets_one_entry(entries, id, updates.drop_last());
        assert(updates.drop_last()[0] == updates[0]);
        assert(is_first_with_id(prev, id, n)) by {
            assert forall|j: int| 0 <= j < n implies prev[j].id != id by {
                assert(prev[j] == entries[j]);
            }
        }
        lemma_position_is_first(prev, id, n);
    }
    assert(sole_holder(after, id, n));
    law_set_then_get(
        set_in_order(entries, id, updates.drop_last()),
        id,
        updates.last().0,
        updates.last().1,
    );
}

} // verus!
