use vstd::prelude::*;

use crate::ident::decimal;
use crate::models::{
    own_text, progress_complete, progress_in_range, CoreError, Goal, Record, NEGATIVE_ZERO_BITS,
    PROGRESS_ONE_BITS,
};
use crate::store::{
    copy_all, discard, fetch, has_key, key_pos, lemma_push_fresh, lemma_remove, lemma_replace, position,
    same_text, Database,
};

verus! {

impl Database {
    /// Creates a goal with no progress, not completed, stamped `now`, with the
    /// next identifier.
    pub fn create_goal(
        &mut self,
        title: &str,
        description: Option<&str>,
        target_date: Option<i64>,
        now: i64,
    ) -> (r: Result<Goal, CoreError>)
        requires
            old(self).wf(),
        ensures
            final(self).wf(),
            final(self).keeps_tasks_notes_sessions(old(self)),
            r is Ok ==> final(self).next_id == old(self).next_id + 1,
            r is Err ==> final(self).next_id == old(self).next_id,
            r is Ok <==> old(self).next_id < u64::MAX,
            r matches Ok(g) ==> {
                &&& g.id@ == decimal(old(self).next_id as nat)
                &&& g.title@ == title@
                &&& same_text(g.description, description)
                &&& g.target_date == target_date
                &&& g.progress_bits == 0
                &&& !g.completed
                &&& g.created_at == now && g.updated_at == now
                &&& final(self).goals@ == old(self).goals@.push(g)
                &&& !has_key(old(self).goals@, g.id@)
            },
            r is Err ==> r == Err::<Goal, CoreError>(CoreError::StoreError) && final(self).goals@
                == old(self).goals@,
    {
        let ghost next = self.next_id;
        match self.allocate_id() {
            Some(id) => {
                let g = Goal {
                    id,
                    title: title.to_owned(),
                    description: own_text(description),
                    target_date,
                    progress_bits: 0,
                    completed: false,
                    created_at: now,
                    updated_at: now,
                };
                proof {
                    lemma_push_fresh(self.goals@, next, g);
                }
                self.goals.push(g.duplicate());
                Ok(g)
            },
            None => Err(CoreError::StoreError),
        }
    }

    /// The goal with identifier `id`.
    pub fn get_goal(&self, id: &str) -> (r: Result<Goal, CoreError>)
        requires
            self.wf(),
        ensures
            r is Ok <==> has_key(self.goals@, id@),
            r matches Ok(g) ==> g == self.goals@[key_pos(self.goals@, id@)] && g.id@ == id@,
            r is Err ==> r == Err::<Goal, CoreError>(CoreError::NotFound),
    {
        fetch(&self.goals, id)
    }

    /// All goals, in stored order.
    pub fn list_goals(&self) -> (r: Vec<Goal>)
        ensures
            r@ == self.goals@,
    {
        copy_all(&self.goals)
    }

    /// Sets the progress of the goal with identifier `id` to the binary64 value
    /// with bits `progress_bits`, stamped `now`; the goal is completed exactly
    /// when the progress is 1.0. A value outside `[0.0, 1.0]` is refused and
    /// changes nothing.
    pub fn set_goal_progress(&mut self, id: &str, progress_bits: u64, now: i64) -> (r: Result<(), CoreError>)
        requires
            old(self).wf(),
        ensures
            final(self).wf(),
            final(self).keeps_tasks_notes_sessions(old(self)),
            final(self).next_id == old(self).next_id,
            r is Ok <==> progress_in_range(progress_bits) && has_key(old(self).goals@, id@),
            !progress_in_range(progress_bits) ==> r == Err::<(), CoreError>(CoreError::Validation),
            progress_in_range(progress_bits) && !has_key(old(self).goals@, id@) ==> r == Err::<
                (),
                CoreError,
            >(CoreError::NotFound),
            r is Ok ==> final(self).goals@ == old(self).goals@.update(
                key_pos(old(self).goals@, id@),
                (Goal {
                    progress_bits: progress_bits,
                    completed: progress_complete(progress_bits),
                    updated_at: now,
                    ..old(self).goals@[key_pos(old(self).goals@, id@)]
                }),
            ),
            r is Err ==> final(self).goals@ == old(self).goals@,
    {
        if !(progress_bits <= PROGRESS_ONE_BITS || progress_bits == NEGATIVE_ZERO_BITS) {
            return Err(CoreError::Validation);
        }
        match position(&self.goals, id) {
            Some(p) => {
                let ghost before = self.goals@;
                self.goals[p].progress_bits = progress_bits;
                self.goals[p].completed = progress_bits == PROGRESS_ONE_BITS;
                self.goals[p].updated_at = now;
                proof {
                    lemma_replace(before, self.next_id, p as int, self.goals@[p as int]);
                    assert(self.goals@ =~= before.update(p as int, self.goals@[p as int]));
                }
                Ok(())
            },
            None => Err(CoreError::NotFound),
        }
    }

    /// Removes the goal with identifier `id`.
    pub fn delete_goal(&mut self, id: &str) -> (r: Result<(), CoreError>)
        requires
            old(self).wf(),
        ensures
            final(self).wf(),
            final(self).keeps_tasks_notes_sessions(old(self)),
            final(self).next_id == old(self).next_id,
            r is Ok <==> has_key(old(self).goals@, id@),
            r is Ok ==> final(self).goals@ == old(self).goals@.remove(key_pos(old(self).goals@, id@)),
            r is Err ==> r == Err::<(), CoreError>(CoreError::NotFound) && final(self).goals@
                == old(self).goals@,
    {
        let ghost before = self.goals@;
        let r = discard(&mut self.goals, id);
        proof {
            if r is Ok {
                lemma_remove(before, self.next_id, key_pos(before, id@));
            }
        }
        r
    }
}

} // verus!

verus! {

/// `g` is a freshly created goal with these inputs.
pub open spec fn new_goal(
    g: Goal,
    title: Seq<char>,
    description: Option<&str>,
    target_date: Option<i64>,
    now: i64,
) -> bool {
    &&& g.title@ == title
    &&& same_text(g.description, description)
    &&& g.target_date == target_date
    &&& g.progress_bits == 0
    &&& !g.completed
    &&& g.created_at == now && g.updated_at == now
}

/// `after` is `before` with the progress of goal `id` set to `bits` at `now`.
pub open spec fn goal_progressed(before: Seq<Goal>, after: Seq<Goal>, id: Seq<char>, bits: u64, now: i64) -> bool {
    after == before.update(
        key_pos(before, id),
        (Goal {
            progress_bits: bits,
            completed: progress_complete(bits),
            updated_at: now,
            ..before[key_pos(before, id)]
        }),
    )
}

} // verus!
