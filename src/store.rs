use vstd::prelude::*;

use crate::ident::{decimal, id_bound, id_floor, id_text, lemma_decimal_injective, spells_huge};
use crate::models::{
    progress_complete, progress_in_range, CoreError, Goal, Note, Record, StudySession, Task, NEGATIVE_ZERO_BITS,
    PROGRESS_ONE_BITS,
};

verus! {

/// No two records of the sequence share an identifier.
pub open spec fn keys_distinct<R: Record>(s: Seq<R>) -> bool {
    forall|i: int, j: int|
        0 <= i < s.len() && 0 <= j < s.len() && i != j ==> #[trigger] s[i].key() != #[trigger] s[j].key()
}

/// No counter value from `next` on would produce this identifier.
pub open spec fn fresh_from(k: Seq<char>, next: u64) -> bool {
    forall|j: nat| j >= next ==> k != #[trigger] decimal(j)
}

pub open spec fn keys_below<R: Record>(s: Seq<R>, next: u64) -> bool {
    forall|i: int| 0 <= i < s.len() ==> fresh_from(#[trigger] s[i].key(), next)
}

pub open spec fn larger(a: int, b: int) -> int {
    if a >= b {
        a
    } else {
        b
    }
}

/// The least counter value from which no value's decimal text is the
/// identifier of a record of the sequence.
pub open spec fn ids_floor<R: Record>(s: Seq<R>) -> int
    decreases s.len(),
{
    if s.len() == 0 {
        0
    } else {
        larger(ids_floor(s.drop_last()), id_floor(s.last().key()) as int)
    }
}

/// The counter of a restored store: the larger of the saved counter (at
/// least 1) and the least value past every stored identifier.
pub open spec fn resumed_counter(
    saved: u64,
    tasks: Seq<Task>,
    notes: Seq<Note>,
    goals: Seq<Goal>,
    sessions: Seq<StudySession>,
) -> int {
    larger(
        larger(larger(larger(larger(1, saved as int), ids_floor(tasks)), ids_floor(notes)), ids_floor(goals)),
        ids_floor(sessions),
    )
}

pub open spec fn has_key<R: Record>(s: Seq<R>, id: Seq<char>) -> bool {
    exists|i: int| 0 <= i < s.len() && #[trigger] s[i].key() == id
}

/// The position of the record with identifier `id` (meaningful where `has_key`).
pub open spec fn key_pos<R: Record>(s: Seq<R>, id: Seq<char>) -> int {
    choose|i: int| 0 <= i < s.len() && #[trigger] s[i].key() == id
}

pub open spec fn none_huge<R: Record>(s: Seq<R>) -> bool {
    forall|i: int| 0 <= i < s.len() ==> !spells_huge(#[trigger] s[i].key())
}

/// Every recorded study duration is non-negative.
pub open spec fn durations_nonneg(s: Seq<StudySession>) -> bool {
    forall|i: int| 0 <= i < s.len() ==> #[trigger] s[i].duration_secs >= 0
}

/// Every goal's progress lies in `[0.0, 1.0]`, and the goal is completed
/// exactly when its progress is 1.0.
pub open spec fn goals_consistent(s: Seq<Goal>) -> bool {
    forall|i: int|
        0 <= i < s.len() ==> progress_in_range(#[trigger] s[i].progress_bits) && s[i].completed
            == progress_complete(s[i].progress_bits)
}

pub open spec fn collection_wf<R: Record>(s: Seq<R>, next: u64) -> bool {
    keys_distinct(s) && keys_below(s, next)
}

/// The in-memory store: one collection per record kind, and the counter that
/// identifiers are drawn from.
pub struct Database {
    pub tasks: Vec<Task>,
    pub notes: Vec<Note>,
    pub goals: Vec<Goal>,
    pub sessions: Vec<StudySession>,
    pub next_id: u64,
}

impl Database {
    /// Identifiers are unique within each kind, no identifier that the counter
    /// has yet to hand out is in use in any kind, no study duration is negative,
    /// and every goal's progress is in range and agrees with its completed flag.
    pub open spec fn wf(&self) -> bool {
        &&& collection_wf(self.tasks@, self.next_id)
        &&& collection_wf(self.notes@, self.next_id)
        &&& collection_wf(self.goals@, self.next_id)
        &&& collection_wf(self.sessions@, self.next_id)
        &&& durations_nonneg(self.sessions@)
        &&& goals_consistent(self.goals@)
    }

    /// An empty store.
    pub fn new() -> (r: Database)
        ensures
            r.wf(),
            r.tasks@.len() == 0,
            r.notes@.len() == 0,
            r.goals@.len() == 0,
            r.sessions@.len() == 0,
            r.next_id == 1,
    {
        Database { tasks: Vec::new(), notes: Vec::new(), goals: Vec::new(), sessions: Vec::new(), next_id: 1 }
    }

    /// A store holding the given records, or `None` where two records of one
    /// kind share an identifier, an identifier spells a number too large for
    /// the counter, a study duration is negative, or a goal's progress is out of
    /// range or disagrees with its completed flag. The counter resumes at
    /// `saved_next` (the counter of the store that was saved), raised where
    /// needed past every identifier in use, so that no identifier is handed
    /// out again.
    pub fn restore(
        tasks: Vec<Task>,
        notes: Vec<Note>,
        goals: Vec<Goal>,
        sessions: Vec<StudySession>,
        saved_next: u64,
    ) -> (r: Option<Database>)
        ensures
            r is Some <==> (keys_distinct(tasks@) && keys_distinct(notes@) && keys_distinct(goals@)
                && keys_distinct(sessions@) && none_huge(tasks@) && none_huge(notes@) && none_huge(goals@)
                && none_huge(sessions@) && durations_nonneg(sessions@) && goals_consistent(goals@)),
            r matches Some(db) ==> db.wf() && db.tasks@ == tasks@ && db.notes@ == notes@
                && db.goals@ == goals@ && db.sessions@ == sessions@
                && db.next_id == resumed_counter(saved_next, tasks@, notes@, goals@, sessions@),
    {
        let start: u64 = if saved_next > 1 {
            saved_next
        } else {
            1
        };
        let a = match scan(&tasks, start) {
            Some(x) => x,
            None => return None,
        };
        let b = match scan(&notes, a) {
            Some(x) => x,
            None => return None,
        };
        let c = match scan(&goals, b) {
            Some(x) => x,
            None => return None,
        };
        let d = match scan(&sessions, c) {
            Some(x) => x,
            None => return None,
        };
        let mut k: usize = 0;
        while k < sessions.len()
            invariant
                k <= sessions@.len(),
                forall|i: int| 0 <= i < k ==> #[trigger] sessions@[i].duration_secs >= 0,
            decreases sessions@.len() - k,
        {
            if sessions[k].duration_secs < 0 {
                return None;
            }
            k = k + 1;
        }
        let mut k: usize = 0;
        while k < goals.len()
            invariant
                k <= goals@.len(),
                forall|i: int|
                    0 <= i < k ==> progress_in_range(#[trigger] goals@[i].progress_bits) && goals@[i].completed
                        == progress_complete(goals@[i].progress_bits),
            decreases goals@.len() - k,
        {
            let b = goals[k].progress_bits;
            if !(b <= PROGRESS_ONE_BITS || b == NEGATIVE_ZERO_BITS) || goals[k].completed != (b == PROGRESS_ONE_BITS) {
                return None;
            }
            k = k + 1;
        }
        proof {
            lemma_keys_below_mono(tasks@, a, d);
            lemma_keys_below_mono(notes@, b, d);
            lemma_keys_below_mono(goals@, c, d);
        }
        Some(Database { tasks, notes, goals, sessions, next_id: d })
    }

    /// Draws the next identifier from the counter, or `None` where it is used up.
    pub(crate) fn allocate_id(&mut self) -> (r: Option<String>)
        requires
            old(self).wf(),
        ensures
            r is Some <==> old(self).next_id < u64::MAX,
            r matches Some(id) ==> id@ == decimal(old(self).next_id as nat) && final(self).next_id
                == old(self).next_id + 1,
            r is None ==> final(self).next_id == old(self).next_id,
            final(self).tasks@ == old(self).tasks@,
            final(self).notes@ == old(self).notes@,
            final(self).goals@ == old(self).goals@,
            final(self).sessions@ == old(self).sessions@,
    {
        if self.next_id == u64::MAX {
            return None;
        }
        let id = id_text(self.next_id);
        self.next_id = self.next_id + 1;
        Some(id)
    }
}

/// Checks that identifiers are distinct and bounded; returns the least
/// counter value past every one of them that is at least `start`.
fn scan<R: Record>(v: &Vec<R>, start: u64) -> (r: Option<u64>)
    ensures
        r is Some <==> keys_distinct(v@) && none_huge(v@),
        r matches Some(b) ==> keys_below(v@, b) && b >= start && b == larger(start as int, ids_floor(v@)),
{
    let mut next = start;
    let mut i: usize = 0;
    assert(v@.take(0) =~= Seq::<R>::empty());
    while i < v.len()
        invariant
            i <= v@.len(),
            next >= start,
            forall|a: int, b: int|
                0 <= a < i && 0 <= b < v@.len() && a != b ==> #[trigger] v@[a].key() != #[trigger] v@[b].key(),
            forall|a: int| 0 <= a < i ==> fresh_from(#[trigger] v@[a].key(), next),
            forall|a: int| 0 <= a < i ==> !spells_huge(#[trigger] v@[a].key()),
            next == larger(start as int, ids_floor(v@.take(i as int))),
        decreases v@.len() - i,
    {
        assert(v@.take(i as int + 1).drop_last() =~= v@.take(i as int));
        let k = v[i].id_text();
        let mut j: usize = 0;
        while j < v.len()
            invariant
                i < v@.len(),
                j <= v@.len(),
                k@ == v@[i as int].key(),
                forall|b: int| 0 <= b < j && b != i ==> v@[i as int].key() != #[trigger] v@[b].key(),
            decreases v@.len() - j,
        {
            if j != i && *v[j].id_text() == *k {
                return None;
            }
            j = j + 1;
        }
        match id_bound(k.as_str()) {
            Some(b) => {
                if b > next {
                    proof {
                        assert forall|a: int| 0 <= a < i implies fresh_from(#[trigger] v@[a].key(), b) by {
                            assert(fresh_from(v@[a].key(), next));
                        }
                    }
                    next = b;
                }
                assert(fresh_from(v@[i as int].key(), next));
            },
            None => {
                return None;
            },
        }
        i = i + 1;
    }
    assert(v@.take(v@.len() as int) =~= v@);
    Some(next)
}

pub proof fn lemma_keys_below_mono<R: Record>(s: Seq<R>, a: u64, b: u64)
    requires
        keys_below(s, a),
        a <= b,
    ensures
        keys_below(s, b),
{
    assert forall|i: int| 0 <= i < s.len() implies fresh_from(#[trigger] s[i].key(), b) by {
        assert(fresh_from(s[i].key(), a));
    }
}

/// Adding a record whose identifier is the counter's current value, and
/// advancing the counter, keeps a collection well formed.
pub proof fn lemma_push_fresh<R: Record>(s: Seq<R>, next: u64, r: R)
    requires
        collection_wf(s, next),
        r.key() == decimal(next as nat),
        next < u64::MAX,
    ensures
        collection_wf(s.push(r), (next + 1) as u64),
        forall|i: int| 0 <= i < s.len() ==> #[trigger] s[i].key() != r.key(),
{
    let t = s.push(r);
    assert forall|i: int| 0 <= i < s.len() implies #[trigger] s[i].key() != r.key() by {
        assert(fresh_from(s[i].key(), next));
    }
    assert forall|i: int| 0 <= i < t.len() implies fresh_from(#[trigger] t[i].key(), (next + 1) as u64) by {
        if i < s.len() {
            assert(t[i] == s[i]);
            assert(fresh_from(s[i].key(), next));
        } else {
            assert forall|j: nat| j >= next + 1 implies t[i].key() != #[trigger] decimal(j) by {
                if t[i].key() == decimal(j) {
                    lemma_decimal_injective(j, next as nat);
                }
            }
        }
    }
    assert forall|a: int, b: int| 0 <= a < t.len() && 0 <= b < t.len() && a != b implies #[trigger] t[a].key()
        != #[trigger] t[b].key() by {
        if a < s.len() && b < s.len() {
            assert(t[a] == s[a] && t[b] == s[b]);
        } else if a < s.len() {
            assert(t[a] == s[a]);
        } else {
            assert(t[b] == s[b]);
        }
    }
}

/// Removing a record keeps a collection well formed.
pub proof fn lemma_remove<R: Record>(s: Seq<R>, next: u64, p: int)
    requires
        collection_wf(s, next),
        0 <= p < s.len(),
    ensures
        collection_wf(s.remove(p), next),
{
    let t = s.remove(p);
    assert forall|i: int| 0 <= i < t.len() implies fresh_from(#[trigger] t[i].key(), next) by {
        if i < p {
            assert(t[i] == s[i]);
        } else {
            assert(t[i] == s[i + 1]);
        }
    }
    assert forall|a: int, b: int| 0 <= a < t.len() && 0 <= b < t.len() && a != b implies #[trigger] t[a].key()
        != #[trigger] t[b].key() by {
        let a2 = if a < p { a } else { a + 1 };
        let b2 = if b < p { b } else { b + 1 };
        assert(t[a] == s[a2] && t[b] == s[b2]);
    }
}

/// Replacing a record by one with the same identifier keeps a collection well formed.
pub proof fn lemma_replace<R: Record>(s: Seq<R>, next: u64, p: int, r: R)
    requires
        collection_wf(s, next),
        0 <= p < s.len(),
        r.key() == s[p].key(),
    ensures
        collection_wf(s.update(p, r), next),
{
    let t = s.update(p, r);
    assert forall|i: int| 0 <= i < t.len() implies fresh_from(#[trigger] t[i].key(), next) by {
        assert(t[i].key() == s[i].key());
    }
    assert forall|a: int, b: int| 0 <= a < t.len() && 0 <= b < t.len() && a != b implies #[trigger] t[a].key()
        != #[trigger] t[b].key() by {
        assert(t[a].key() == s[a].key() && t[b].key() == s[b].key());
    }
}

/// The position of the record with identifier `id`, if there is one.
pub fn position<R: Record>(v: &Vec<R>, id: &str) -> (r: Option<usize>)
    requires
        keys_distinct(v@),
    ensures
        r is Some <==> has_key(v@, id@),
        r matches Some(p) ==> p < v@.len() && p == key_pos(v@, id@) && v@[p as int].key() == id@,
{
    let key = id.to_owned();
    let mut i: usize = 0;
    while i < v.len()
        invariant
            i <= v@.len(),
            key@ == id@,
            keys_distinct(v@),
            forall|a: int| 0 <= a < i ==> #[trigger] v@[a].key() != id@,
        decreases v@.len() - i,
    {
        if *v[i].id_text() == key {
            proof {
                assert(v@[i as int].key() == id@);
                assert(has_key(v@, id@));
                let c = key_pos(v@, id@);
                assert(0 <= c < v@.len() && v@[c].key() == id@);
                if c != i {
                    assert(v@[c].key() != v@[i as int].key());
                }
            }
            return Some(i);
        }
        i = i + 1;
    }
    None
}

/// Copies of all records, in stored order.
pub fn copy_all<R: Record>(v: &Vec<R>) -> (r: Vec<R>)
    ensures
        r@ == v@,
{
    let mut out: Vec<R> = Vec::new();
    let mut i: usize = 0;
    while i < v.len()
        invariant
            i <= v@.len(),
            out@ == v@.take(i as int),
        decreases v@.len() - i,
    {
        out.push(v[i].duplicate());
        assert(v@.take(i as int + 1) =~= v@.take(i as int).push(v@[i as int]));
        i = i + 1;
    }
    assert(v@.take(v@.len() as int) =~= v@);
    out
}

/// A copy of the record with identifier `id`.
pub fn fetch<R: Record>(v: &Vec<R>, id: &str) -> (r: Result<R, CoreError>)
    requires
        keys_distinct(v@),
    ensures
        r is Ok <==> has_key(v@, id@),
        r matches Ok(x) ==> x == v@[key_pos(v@, id@)],
        r is Err ==> r == Err::<R, CoreError>(CoreError::NotFound),
{
    match position(v, id) {
        Some(p) => Ok(v[p].duplicate()),
        None => Err(CoreError::NotFound),
    }
}

/// Removes the record with identifier `id`.
pub fn discard<R: Record>(v: &mut Vec<R>, id: &str) -> (r: Result<(), CoreError>)
    requires
        keys_distinct(old(v)@),
    ensures
        r is Ok <==> has_key(old(v)@, id@),
        r is Ok ==> final(v)@ == old(v)@.remove(key_pos(old(v)@, id@)),
        r is Err ==> r == Err::<(), CoreError>(CoreError::NotFound) && final(v)@ == old(v)@,
{
    match position(v, id) {
        Some(p) => {
            v.remove(p);
            Ok(())
        },
        None => Err(CoreError::NotFound),
    }
}

} // verus!

verus! {

/// An owned optional text holds what a borrowed one does.
pub open spec fn same_text(o: Option<String>, s: Option<&str>) -> bool {
    (o is Some <==> s is Some) && (o is Some ==> o->Some_0@ == s->Some_0@)
}

impl Database {
    pub open spec fn keeps_notes_goals_sessions(&self, o: &Database) -> bool {
        self.notes@ == o.notes@ && self.goals@ == o.goals@ && self.sessions@ == o.sessions@
    }

    pub open spec fn keeps_tasks_goals_sessions(&self, o: &Database) -> bool {
        self.tasks@ == o.tasks@ && self.goals@ == o.goals@ && self.sessions@ == o.sessions@
    }

    pub open spec fn keeps_tasks_notes_sessions(&self, o: &Database) -> bool {
        self.tasks@ == o.tasks@ && self.notes@ == o.notes@ && self.sessions@ == o.sessions@
    }

    pub open spec fn keeps_tasks_notes_goals(&self, o: &Database) -> bool {
        self.tasks@ == o.tasks@ && self.notes@ == o.notes@ && self.goals@ == o.goals@
    }
}

} // verus!
