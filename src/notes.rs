use vstd::prelude::*;

use crate::ident::decimal;
use crate::models::{own_text, CoreError, Note, Record};
use crate::store::{
    copy_all, discard, fetch, has_key, key_pos, lemma_push_fresh, lemma_remove, lemma_replace, position,
    same_text, Database,
};

verus! {

/// The notes whose subject is exactly `subject`, in stored order.
pub open spec fn notes_with_subject(s: Seq<Note>, subject: Seq<char>) -> Seq<Note>
    decreases s.len(),
{
    if s.len() == 0 {
        Seq::empty()
    } else if s.last().subject is Some && s.last().subject->Some_0@ == subject {
        notes_with_subject(s.drop_last(), subject).push(s.last())
    } else {
        notes_with_subject(s.drop_last(), subject)
    }
}

impl Database {
    /// Creates a note stamped `now` with the next identifier.
    pub fn create_note(&mut self, title: &str, body: &str, subject: Option<&str>, now: i64) -> (r: Result<
        Note,
        CoreError,
    >)
        requires
            old(self).wf(),
        ensures
            final(self).wf(),
            final(self).keeps_tasks_goals_sessions(old(self)),
            r is Ok ==> final(self).next_id == old(self).next_id + 1,
            r is Err ==> final(self).next_id == old(self).next_id,
            r is Ok <==> old(self).next_id < u64::MAX,
            r matches Ok(n) ==> {
                &&& n.id@ == decimal(old(self).next_id as nat)
                &&& n.title@ == title@
                &&& n.body@ == body@
                &&& same_text(n.subject, subject)
                &&& n.created_at == now && n.updated_at == now
                &&& final(self).notes@ == old(self).notes@.push(n)
                &&& !has_key(old(self).notes@, n.id@)
            },
            r is Err ==> r == Err::<Note, CoreError>(CoreError::StoreError) && final(self).notes@
                == old(self).notes@,
    {
        let ghost next = self.next_id;
        match self.allocate_id() {
            Some(id) => {
                let n = Note {
                    id,
                    title: title.to_owned(),
                    body: body.to_owned(),
                    subject: own_text(subject),
                    created_at: now,
                    updated_at: now,
                };
                proof {
                    lemma_push_fresh(self.notes@, next, n);
                }
                self.notes.push(n.duplicate());
                Ok(n)
            },
            None => Err(CoreError::StoreError),
        }
    }

    /// The note with identifier `id`.
    pub fn get_note(&self, id: &str) -> (r: Result<Note, CoreError>)
        requires
            self.wf(),
        ensures
            r is Ok <==> has_key(self.notes@, id@),
            r matches Ok(n) ==> n == self.notes@[key_pos(self.notes@, id@)] && n.id@ == id@,
            r is Err ==> r == Err::<Note, CoreError>(CoreError::NotFound),
    {
        fetch(&self.notes, id)
    }

    /// All notes, in stored order.
    pub fn list_notes(&self) -> (r: Vec<Note>)
        ensures
            r@ == self.notes@,
    {
        copy_all(&self.notes)
    }

    /// The notes tagged with exactly `subject` (case-sensitive), in stored order.
    pub fn list_notes_by_subject(&self, subject: &str) -> (r: Vec<Note>)
        ensures
            r@ == notes_with_subject(self.notes@, subject@),
    {
        let key = subject.to_owned();
        let mut out: Vec<Note> = Vec::new();
        let mut i: usize = 0;
        while i < self.notes.len()
            invariant
                i <= self.notes@.len(),
                key@ == subject@,
                out@ == notes_with_subject(self.notes@.take(i as int), subject@),
            decreases self.notes@.len() - i,
        {
            let ghost pre = self.notes@.take(i as int);
            assert(self.notes@.take(i as int + 1).drop_last() =~= pre);
            let hit = match &self.notes[i].subject {
                Some(s) => *s == key,
                None => false,
            };
            if hit {
                out.push(self.notes[i].duplicate());
            }
            i = i + 1;
        }
        assert(self.notes@.take(self.notes@.len() as int) =~= self.notes@);
        out
    }

    /// Replaces the body of the note with identifier `id`, stamped `now`.
    pub fn update_note_body(&mut self, id: &str, body: &str, now: i64) -> (r: Result<(), CoreError>)
        requires
            old(self).wf(),
        ensures
            final(self).wf(),
            final(self).keeps_tasks_goals_sessions(old(self)),
            final(self).next_id == old(self).next_id,
            r is Ok <==> has_key(old(self).notes@, id@),
            r is Ok ==> final(self).notes@ == old(self).notes@.update(
                key_pos(old(self).notes@, id@),
                (Note {
                    body: final(self).notes@[key_pos(old(self).notes@, id@)].body,
                    updated_at: now,
                    ..old(self).notes@[key_pos(old(self).notes@, id@)]
                }),
            ) && final(self).notes@[key_pos(old(self).notes@, id@)].body@ == body@,
            r is Err ==> r == Err::<(), CoreError>(CoreError::NotFound) && final(self).notes@
                == old(self).notes@,
    {
        match position(&self.notes, id) {
            Some(p) => {
                let ghost before = self.notes@;
                self.notes[p].body = body.to_owned();
                self.notes[p].updated_at = now;
                proof {
                    lemma_replace(before, self.next_id, p as int, self.notes@[p as int]);
                    assert(self.notes@ =~= before.update(p as int, self.notes@[p as int]));
                }
                Ok(())
            },
            None => Err(CoreError::NotFound),
        }
    }

    /// Removes the note with identifier `id`.
    pub fn delete_note(&mut self, id: &str) -> (r: Result<(), CoreError>)
        requires
            old(self).wf(),
        ensures
            final(self).wf(),
            final(self).keeps_tasks_goals_sessions(old(self)),
            final(self).next_id == old(self).next_id,
            r is Ok <==> has_key(old(self).notes@, id@),
            r is Ok ==> final(self).notes@ == old(self).notes@.remove(key_pos(old(self).notes@, id@)),
            r is Err ==> r == Err::<(), CoreError>(CoreError::NotFound) && final(self).notes@
                == old(self).notes@,
    {
        let ghost before = self.notes@;
        let r = discard(&mut self.notes, id);
        proof {
            if r is Ok {
                lemma_remove(before, self.next_id, key_pos(before, id@));
            }
        }
        r
    }
}

} // verus!

verus! {

/// `n` is a freshly created note with these inputs.
pub open spec fn new_note(n: Note, title: Seq<char>, body: Seq<char>, subject: Option<&str>, now: i64) -> bool {
    &&& n.title@ == title
    &&& n.body@ == body
    &&& same_text(n.subject, subject)
    &&& n.created_at == now && n.updated_at == now
}

/// `after` is `before` with the body of note `id` replaced by `body` at `now`.
pub open spec fn note_rewritten(before: Seq<Note>, after: Seq<Note>, id: Seq<char>, body: Seq<char>, now: i64) -> bool {
    &&& after == before.update(
        key_pos(before, id),
        (Note { body: after[key_pos(before, id)].body, updated_at: now, ..before[key_pos(before, id)] }),
    )
    &&& after[key_pos(before, id)].body@ == body
}

} // verus!
