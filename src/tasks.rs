use vstd::prelude::*;

use crate::ident::decimal;
use crate::models::{own_text, CoreError, Priority, Record, Task};
use crate::store::{
    copy_all, discard, fetch, has_key, key_pos, lemma_push_fresh, lemma_remove, lemma_replace, position,
    same_text, Database,
};

verus! {

/// Due-date order: dated tasks by date, then the undated ones.
pub open spec fn due_le(a: Option<i64>, b: Option<i64>) -> bool {
    match (a, b) {
        (Some(x), Some(y)) => x <= y,
        (Some(_), None) => true,
        (None, Some(_)) => false,
        (None, None) => true,
    }
}

/// Inserts `t` into a sequence ordered by due date, after every task whose
/// due date is not later than its own.
pub open spec fn insert_by_due(s: Seq<Task>, t: Task) -> Seq<Task>
    decreases s.len(),
{
    if s.len() == 0 {
        seq![t]
    } else if due_le(s.last().due_date, t.due_date) {
        s.push(t)
    } else {
        insert_by_due(s.drop_last(), t).push(s.last())
    }
}

/// The tasks not yet completed, ordered by due date with undated tasks last;
/// tasks with equal due dates keep their stored order.
pub open spec fn incomplete_by_due(s: Seq<Task>) -> Seq<Task>
    decreases s.len(),
{
    if s.len() == 0 {
        Seq::empty()
    } else if s.last().completed {
        incomplete_by_due(s.drop_last())
    } else {
        insert_by_due(incomplete_by_due(s.drop_last()), s.last())
    }
}

proof fn lemma_insert_at(s: Seq<Task>, t: Task, j: int)
    requires
        0 <= j <= s.len(),
        forall|k: int| j <= k < s.len() ==> !due_le(#[trigger] s[k].due_date, t.due_date),
        j == 0 || due_le(s[j - 1].due_date, t.due_date),
    ensures
        insert_by_due(s, t) == s.insert(j, t),
    decreases s.len(),
{
    if s.len() == 0 {
        assert(s.insert(j, t) =~= seq![t]);
    } else if j == s.len() {
        assert(s.insert(j, t) =~= s.push(t));
    } else {
        assert(!due_le(s[s.len() - 1].due_date, t.due_date));
        lemma_insert_at(s.drop_last(), t, j);
        assert(s.drop_last().insert(j, t).push(s.last()) =~= s.insert(j, t));
    }
}

impl Database {
    /// Creates a task, not completed, stamped `now`, with the next identifier.
    pub fn create_task(
        &mut self,
        title: &str,
        notes: Option<&str>,
        due_date: Option<i64>,
        priority: Priority,
        now: i64,
    ) -> (r: Result<Task, CoreError>)
        requires
            old(self).wf(),
        ensures
            final(self).wf(),
            final(self).keeps_notes_goals_sessions(old(self)),
            r is Ok ==> final(self).next_id == old(self).next_id + 1,
            r is Err ==> final(self).next_id == old(self).next_id,
            r is Ok <==> old(self).next_id < u64::MAX,
            r matches Ok(t) ==> {
                &&& t.id@ == decimal(old(self).next_id as nat)
                &&& t.title@ == title@
                &&& same_text(t.notes, notes)
                &&& t.due_date == due_date
                &&& t.priority == priority
                &&& !t.completed
                &&& t.created_at == now && t.updated_at == now
                &&& final(self).tasks@ == old(self).tasks@.push(t)
                &&& !has_key(old(self).tasks@, t.id@)
            },
            r is Err ==> r == Err::<Task, CoreError>(CoreError::StoreError) && final(self).tasks@
                == old(self).tasks@,
    {
        let ghost next = self.next_id;
        match self.allocate_id() {
            Some(id) => {
                let t = Task {
                    id,
                    title: title.to_owned(),
                    notes: own_text(notes),
                    due_date,
                    priority,
                    completed: false,
                    created_at: now,
                    updated_at: now,
                };
                proof {
                    lemma_push_fresh(self.tasks@, next, t);
                }
                self.tasks.push(t.duplicate());
                Ok(t)
            },
            None => Err(CoreError::StoreError),
        }
    }

    /// The task with identifier `id`.
    pub fn get_task(&self, id: &str) -> (r: Result<Task, CoreError>)
        requires
            self.wf(),
        ensures
            r is Ok <==> has_key(self.tasks@, id@),
            r matches Ok(t) ==> t == self.tasks@[key_pos(self.tasks@, id@)] && t.id@ == id@,
            r is Err ==> r == Err::<Task, CoreError>(CoreError::NotFound),
    {
        fetch(&self.tasks, id)
    }

    /// All tasks, in stored order.
    pub fn list_tasks(&self) -> (r: Vec<Task>)
        ensures
            r@ == self.tasks@,
    {
        copy_all(&self.tasks)
    }

    /// The tasks not yet completed, by due date, undated ones last.
    pub fn list_incomplete_tasks(&self) -> (r: Vec<Task>)
        ensures
            r@ == incomplete_by_due(self.tasks@),
    {
        let mut out: Vec<Task> = Vec::new();
        let mut i: usize = 0;
        while i < self.tasks.len()
            invariant
                i <= self.tasks@.len(),
                out@ == incomplete_by_due(self.tasks@.take(i as int)),
            decreases self.tasks@.len() - i,
        {
            let ghost pre = self.tasks@.take(i as int);
            assert(self.tasks@.take(i as int + 1).drop_last() =~= pre);
            if !self.tasks[i].completed {
                let d = self.tasks[i].due_date;
                let mut j: usize = out.len();
                while j > 0 && !due_no_later(out[j - 1].due_date, d)
                    invariant
                        j <= out@.len(),
                        forall|k: int| j <= k < out@.len() ==> !due_le(#[trigger] out@[k].due_date, d),
                    decreases j,
                {
                    j = j - 1;
                }
                proof {
                    lemma_insert_at(out@, self.tasks@[i as int], j as int);
                }
                out.insert(j, self.tasks[i].duplicate());
            }
            i = i + 1;
        }
        assert(self.tasks@.take(self.tasks@.len() as int) =~= self.tasks@);
        out
    }

    /// Marks the task with identifier `id` completed or not, stamped `now`.
    pub fn set_task_completed(&mut self, id: &str, completed: bool, now: i64) -> (r: Result<(), CoreError>)
        requires
            old(self).wf(),
        ensures
            final(self).wf(),
            final(self).keeps_notes_goals_sessions(old(self)),
            final(self).next_id == old(self).next_id,
            r is Ok <==> has_key(old(self).tasks@, id@),
            r is Ok ==> final(self).tasks@ == old(self).tasks@.update(
                key_pos(old(self).tasks@, id@),
                (Task {
                    completed: completed,
                    updated_at: now,
                    ..old(self).tasks@[key_pos(old(self).tasks@, id@)]
                }),
            ),
            r is Err ==> r == Err::<(), CoreError>(CoreError::NotFound) && final(self).tasks@
                == old(self).tasks@,
    {
        match position(&self.tasks, id) {
            Some(p) => {
                let ghost before = self.tasks@;
                self.tasks[p].completed = completed;
                self.tasks[p].updated_at = now;
                proof {
                    lemma_replace(before, self.next_id, p as int, self.tasks@[p as int]);
                    assert(self.tasks@ =~= before.update(p as int, self.tasks@[p as int]));
                }
                Ok(())
            },
            None => Err(CoreError::NotFound),
        }
    }

    /// Replaces the title of the task with identifier `id`, stamped `now`.
    pub fn update_task_title(&mut self, id: &str, title: &str, now: i64) -> (r: Result<(), CoreError>)
        requires
            old(self).wf(),
        ensures
            final(self).wf(),
            final(self).keeps_notes_goals_sessions(old(self)),
            final(self).next_id == old(self).next_id,
            r is Ok <==> has_key(old(self).tasks@, id@),
            r is Ok ==> final(self).tasks@ == old(self).tasks@.update(
                key_pos(old(self).tasks@, id@),
                (Task {
                    title: final(self).tasks@[key_pos(old(self).tasks@, id@)].title,
                    updated_at: now,
                    ..old(self).tasks@[key_pos(old(self).tasks@, id@)]
                }),
            ) && final(self).tasks@[key_pos(old(self).tasks@, id@)].title@ == title@,
            r is Err ==> r == Err::<(), CoreError>(CoreError::NotFound) && final(self).tasks@
                == old(self).tasks@,
    {
        match position(&self.tasks, id) {
            Some(p) => {
                let ghost before = self.tasks@;
                self.tasks[p].title = title.to_owned();
                self.tasks[p].updated_at = now;
                proof {
                    lemma_replace(before, self.next_id, p as int, self.tasks@[p as int]);
                    assert(self.tasks@ =~= before.update(p as int, self.tasks@[p as int]));
                }
                Ok(())
            },
            None => Err(CoreError::NotFound),
        }
    }

    /// Removes the task with identifier `id`.
    pub fn delete_task(&mut self, id: &str) -> (r: Result<(), CoreError>)
        requires
            old(self).wf(),
        ensures
            final(self).wf(),
            final(self).keeps_notes_goals_sessions(old(self)),
            final(self).next_id == old(self).next_id,
            r is Ok <==> has_key(old(self).tasks@, id@),
            r is Ok ==> final(self).tasks@ == old(self).tasks@.remove(key_pos(old(self).tasks@, id@)),
            r is Err ==> r == Err::<(), CoreError>(CoreError::NotFound) && final(self).tasks@
                == old(self).tasks@,
    {
        let ghost before = self.tasks@;
        let r = discard(&mut self.tasks, id);
        proof {
            if r is Ok {
                lemma_remove(before, self.next_id, key_pos(before, id@));
            }
        }
        r
    }
}

/// Whether due date `a` comes no later than `b` in due-date order.
fn due_no_later(a: Option<i64>, b: Option<i64>) -> (r: bool)
    ensures
        r == due_le(a, b),
{
    match (a, b) {
        (Some(x), Some(y)) => x <= y,
        (Some(_), None) => true,
        (None, Some(_)) => false,
        (None, None) => true,
    }
}

} // verus!

verus! {

/// `t` is a freshly created task with these inputs.
pub open spec fn new_task(
    t: Task,
    title: Seq<char>,
    notes: Option<&str>,
    due_date: Option<i64>,
    priority: Priority,
    now: i64,
) -> bool {
    &&& t.title@ == title
    &&& same_text(t.notes, notes)
    &&& t.due_date == due_date
    &&& t.priority == priority
    &&& !t.completed
    &&& t.created_at == now && t.updated_at == now
}

/// `after` is `before` with the task `id` marked `completed` at `now`.
pub open spec fn task_marked(before: Seq<Task>, after: Seq<Task>, id: Seq<char>, completed: bool, now: i64) -> bool {
    after == before.update(
        key_pos(before, id),
        (Task { completed: completed, updated_at: now, ..before[key_pos(before, id)] }),
    )
}

/// `after` is `before` with the task `id` retitled `title` at `now`.
pub open spec fn task_retitled(before: Seq<Task>, after: Seq<Task>, id: Seq<char>, title: Seq<char>, now: i64) -> bool {
    &&& after == before.update(
        key_pos(before, id),
        (Task { title: after[key_pos(before, id)].title, updated_at: now, ..before[key_pos(before, id)] }),
    )
    &&& after[key_pos(before, id)].title@ == title
}

} // verus!
