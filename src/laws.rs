use vstd::prelude::*;

use crate::goals::goal_progressed;
use crate::ident::{decimal, lemma_decimal_injective, lemma_decimal_value};
use crate::models::{progress_complete, Goal, Record, StudySession, Task, PROGRESS_ONE_BITS};
use crate::sessions::duration_total;
use crate::store::{fresh_from, has_key, key_pos, keys_distinct, Database};
use crate::tasks::{due_le, incomplete_by_due, insert_by_due};

verus! {

/// The identifier that the next creation hands out is non-empty and differs
/// from the identifier of every record in the store, of every kind.
pub proof fn law_new_id_unique(db: Database)
    requires
        db.wf(),
    ensures
        decimal(db.next_id as nat).len() > 0,
        forall|i: int| 0 <= i < db.tasks@.len() ==> #[trigger] db.tasks@[i].key() != decimal(db.next_id as nat),
        forall|i: int| 0 <= i < db.notes@.len() ==> #[trigger] db.notes@[i].key() != decimal(db.next_id as nat),
        forall|i: int| 0 <= i < db.goals@.len() ==> #[trigger] db.goals@[i].key() != decimal(db.next_id as nat),
        forall|i: int|
            0 <= i < db.sessions@.len() ==> #[trigger] db.sessions@[i].key() != decimal(db.next_id as nat),
{
    lemma_decimal_value(db.next_id as nat);
    assert forall|i: int| 0 <= i < db.tasks@.len() implies #[trigger] db.tasks@[i].key() != decimal(
        db.next_id as nat,
    ) by {
        assert(fresh_from(db.tasks@[i].key(), db.next_id));
    }
    assert forall|i: int| 0 <= i < db.notes@.len() implies #[trigger] db.notes@[i].key() != decimal(
        db.next_id as nat,
    ) by {
        assert(fresh_from(db.notes@[i].key(), db.next_id));
    }
    assert forall|i: int| 0 <= i < db.goals@.len() implies #[trigger] db.goals@[i].key() != decimal(
        db.next_id as nat,
    ) by {
        assert(fresh_from(db.goals@[i].key(), db.next_id));
    }
    assert forall|i: int| 0 <= i < db.sessions@.len() implies #[trigger] db.sessions@[i].key() != decimal(
        db.next_id as nat,
    ) by {
        assert(fresh_from(db.sessions@[i].key(), db.next_id));
    }
}

/// After a record is added, looking up its identifier finds exactly that record.
pub proof fn law_get_after_create<R: Record>(before: Seq<R>, r: R)
    requires
        keys_distinct(before.push(r)),
    ensures
        has_key(before.push(r), r.key()),
        before.push(r)[key_pos(before.push(r), r.key())] == r,
{
    let s = before.push(r);
    assert(s[before.len() as int] == r);
    assert(has_key(s, r.key()));
    let p = key_pos(s, r.key());
    if p != before.len() {
        assert(s[p].key() != s[before.len() as int].key());
    }
}

/// After the record with identifier `id` is removed, no record has that
/// identifier: a lookup finds nothing and a second removal fails.
pub proof fn law_gone_after_delete<R: Record>(before: Seq<R>, id: Seq<char>)
    requires
        keys_distinct(before),
        has_key(before, id),
    ensures
        !has_key(before.remove(key_pos(before, id)), id),
{
    let p = key_pos(before, id);
    let s = before.remove(p);
    if has_key(s, id) {
        let q = choose|q: int| 0 <= q < s.len() && #[trigger] s[q].key() == id;
        let q2 = if q < p { q } else { q + 1 };
        assert(s[q] == before[q2]);
        assert(before[q2].key() != before[p].key());
    }
}

/// Setting a goal's progress to 1.0 leaves it completed, with progress 1.0,
/// under the same identifier.
pub proof fn law_full_progress_completes(before: Seq<Goal>, after: Seq<Goal>, id: Seq<char>, now: i64)
    requires
        keys_distinct(before),
        has_key(before, id),
        goal_progressed(before, after, id, PROGRESS_ONE_BITS, now),
    ensures
        has_key(after, id),
        after[key_pos(after, id)].completed,
        after[key_pos(after, id)].progress_bits == PROGRESS_ONE_BITS,
{
    let p = key_pos(before, id);
    assert(after[p].key() == id);
    assert(has_key(after, id));
    let q = key_pos(after, id);
    if q != p {
        assert(after[q].key() == before[q].key());
        assert(before[q].key() != before[p].key());
    }
    assert(progress_complete(PROGRESS_ONE_BITS));
}

/// A subject with no sessions totals 0.
pub proof fn law_total_of_absent_subject(s: Seq<StudySession>, subject: Seq<char>)
    requires
        forall|i: int| 0 <= i < s.len() ==> #[trigger] s[i].subject@ != subject,
    ensures
        duration_total(s, subject) == 0,
    decreases s.len(),
{
    if s.len() > 0 {
        let t = s.drop_last();
        assert forall|i: int| 0 <= i < t.len() implies #[trigger] t[i].subject@ != subject by {
            assert(t[i] == s[i]);
        }
        law_total_of_absent_subject(t, subject);
        assert(s.last() == s[s.len() - 1]);
    }
}

} // verus!

verus! {

/// Each task's due date comes no later than the next one's, undated tasks last.
pub open spec fn ordered_by_due(s: Seq<Task>) -> bool {
    forall|i: int| 0 <= i < s.len() - 1 ==> due_le(#[trigger] s[i].due_date, s[i + 1].due_date)
}

pub open spec fn all_incomplete(s: Seq<Task>) -> bool {
    forall|i: int| 0 <= i < s.len() ==> !(#[trigger] s[i].completed)
}

proof fn lemma_insert_keeps_order(s: Seq<Task>, t: Task)
    requires
        ordered_by_due(s),
    ensures
        ordered_by_due(insert_by_due(s, t)),
        insert_by_due(s, t).len() == s.len() + 1,
        insert_by_due(s, t).last() == t || (s.len() > 0 && insert_by_due(s, t).last() == s.last()),
        all_incomplete(s) && !t.completed ==> all_incomplete(insert_by_due(s, t)),
    decreases s.len(),
{
    if s.len() == 0 {
    } else if due_le(s.last().due_date, t.due_date) {
        let r = s.push(t);
        assert forall|i: int| 0 <= i < r.len() - 1 implies due_le(#[trigger] r[i].due_date, r[i + 1].due_date) by {
            if i < s.len() - 1 {
                assert(r[i] == s[i] && r[i + 1] == s[i + 1]);
            }
        }
        assert forall|i: int| all_incomplete(s) && !t.completed && 0 <= i < r.len() implies !(
        #[trigger] r[i].completed) by {
            if i < s.len() {
                assert(r[i] == s[i]);
            }
        }
    } else {
        let d = s.drop_last();
        assert(ordered_by_due(d)) by {
            assert forall|i: int| 0 <= i < d.len() - 1 implies due_le(#[trigger] d[i].due_date, d[i + 1].due_date) by {
                assert(d[i] == s[i] && d[i + 1] == s[i + 1]);
            }
        }
        lemma_insert_keeps_order(d, t);
        let q = insert_by_due(d, t);
        let r = q.push(s.last());
        assert(due_le(q.last().due_date, s.last().due_date)) by {
            if q.last() != t {
                assert(q.last() == d.last());
                assert(d.last() == s[s.len() - 2]);
                assert(due_le(s[s.len() - 2].due_date, s[s.len() - 1].due_date));
            }
        }
        assert forall|i: int| 0 <= i < r.len() - 1 implies due_le(#[trigger] r[i].due_date, r[i + 1].due_date) by {
            if i < q.len() - 1 {
                assert(r[i] == q[i] && r[i + 1] == q[i + 1]);
            } else {
                assert(r[i] == q.last());
            }
        }
        if all_incomplete(s) && !t.completed {
            assert(all_incomplete(d)) by {
                assert forall|i: int| 0 <= i < d.len() implies !(#[trigger] d[i].completed) by {
                    assert(d[i] == s[i]);
                }
            }
            assert forall|i: int| 0 <= i < r.len() implies !(#[trigger] r[i].completed) by {
                if i < q.len() {
                    assert(r[i] == q[i]);
                }
            }
        }
    }
}

/// The incomplete-task listing holds no completed task and is ordered by due
/// date, tasks without a due date last.
pub proof fn law_incomplete_listing_ordered(s: Seq<Task>)
    ensures
        ordered_by_due(incomplete_by_due(s)),
        all_incomplete(incomplete_by_due(s)),
    decreases s.len(),
{
    if s.len() > 0 {
        law_incomplete_listing_ordered(s.drop_last());
        if !s.last().completed {
            lemma_insert_keeps_order(incomplete_by_due(s.drop_last()), s.last());
        }
    }
}

} // verus!

verus! {

/// Whether a task is still open.
pub open spec fn open_task() -> spec_fn(Task) -> bool {
    |t: Task| !t.completed
}

proof fn lemma_insert_multiset(s: Seq<Task>, t: Task)
    ensures
        insert_by_due(s, t).to_multiset() =~= s.to_multiset().insert(t),
    decreases s.len(),
{
    broadcast use vstd::seq_lib::group_to_multiset_ensures;
    broadcast use vstd::multiset::group_multiset_axioms;

    if s.len() == 0 {
        assert(seq![t] =~= s.push(t));
    } else if due_le(s.last().due_date, t.due_date) {
    } else {
        let d = s.drop_last();
        lemma_insert_multiset(d, t);
        assert(d.push(s.last()) =~= s);
        assert(insert_by_due(s, t) == insert_by_due(d, t).push(s.last()));
        assert(insert_by_due(d, t).push(s.last()).to_multiset() =~= d.to_multiset().insert(t).insert(s.last()));
        assert(s.to_multiset() =~= d.to_multiset().insert(s.last()));
    }
}

/// The incomplete-task listing holds every incomplete task, each exactly as
/// often as it is stored, and nothing else.
pub proof fn law_incomplete_listing_complete(s: Seq<Task>)
    ensures
        incomplete_by_due(s).to_multiset() =~= s.filter(open_task()).to_multiset(),
    decreases s.len(),
{
    broadcast use vstd::seq_lib::group_to_multiset_ensures;
    broadcast use vstd::multiset::group_multiset_axioms;

    if s.len() == 0 {
        reveal(Seq::filter);
        assert(s.filter(open_task()) =~= s);
        assert(incomplete_by_due(s) =~= s);
    } else {
        let d = s.drop_last();
        law_incomplete_listing_complete(d);
        assert(d.push(s.last()) =~= s);
        d.lemma_filter_push(s.last(), open_task());
        if !s.last().completed {
            lemma_insert_multiset(incomplete_by_due(d), s.last());
            assert(s.filter(open_task()) == d.filter(open_task()).push(s.last()));
        } else {
            assert(s.filter(open_task()) == d.filter(open_task()));
        }
    }
}

/// Identifiers drawn from the counter at strictly increasing values are
/// pairwise distinct and non-empty. A store's history draws them so: each
/// creation takes the counter and raises it by one, no other operation
/// changes it, and a restored store resumes no lower than the counter it was
/// saved with. So no identifier is handed out twice, deletions and reopenings
/// included.
pub proof fn law_issued_ids_distinct(counters: Seq<u64>)
    requires
        forall|i: int, j: int| 0 <= i < j < counters.len() ==> counters[i] < counters[j],
    ensures
        forall|i: int| 0 <= i < counters.len() ==> decimal(#[trigger] counters[i] as nat).len() > 0,
        forall|i: int, j: int|
            0 <= i < counters.len() && 0 <= j < counters.len() && i != j ==> decimal(
                #[trigger] counters[i] as nat,
            ) != decimal(#[trigger] counters[j] as nat),
{
    assert forall|i: int| 0 <= i < counters.len() implies decimal(#[trigger] counters[i] as nat).len() > 0 by {
        lemma_decimal_value(counters[i] as nat);
    }
    assert forall|i: int, j: int|
        0 <= i < counters.len() && 0 <= j < counters.len() && i != j implies decimal(
        #[trigger] counters[i] as nat,
    ) != decimal(#[trigger] counters[j] as nat) by {
        if decimal(counters[i] as nat) == decimal(counters[j] as nat) {
            lemma_decimal_injective(counters[i] as nat, counters[j] as nat);
        }
    }
}

} // verus!
