use vstd::prelude::*;

use crate::ident::decimal;
use crate::models::{own_text, CoreError, Record, StudySession};
use crate::store::{
    copy_all, discard, durations_nonneg, fetch, has_key, key_pos, lemma_push_fresh, lemma_remove, same_text,
    Database,
};

verus! {

/// The sessions whose subject is exactly `subject`, in stored order.
pub open spec fn sessions_with_subject(s: Seq<StudySession>, subject: Seq<char>) -> Seq<StudySession>
    decreases s.len(),
{
    if s.len() == 0 {
        Seq::empty()
    } else if s.last().subject@ == subject {
        sessions_with_subject(s.drop_last(), subject).push(s.last())
    } else {
        sessions_with_subject(s.drop_last(), subject)
    }
}

/// The sum of the durations of the sessions whose subject is exactly `subject`.
pub open spec fn duration_total(s: Seq<StudySession>, subject: Seq<char>) -> int
    decreases s.len(),
{
    if s.len() == 0 {
        0
    } else if s.last().subject@ == subject {
        duration_total(s.drop_last(), subject) + s.last().duration_secs
    } else {
        duration_total(s.drop_last(), subject)
    }
}

/// With no negative durations, a longer prefix never sums to less.
proof fn lemma_total_grows(s: Seq<StudySession>, subject: Seq<char>, k: int)
    requires
        0 <= k <= s.len(),
        durations_nonneg(s),
    ensures
        0 <= duration_total(s.take(k), subject) <= duration_total(s, subject),
    decreases s.len() - k,
{
    if k < s.len() {
        lemma_total_grows(s, subject, k + 1);
        assert(s.take(k + 1).drop_last() =~= s.take(k));
        assert(s.take(k + 1).last() == s[k]);
        assert(s[k].duration_secs >= 0);
        assert(durations_nonneg(s.take(k))) by {
            assert forall|i: int| 0 <= i < k implies #[trigger] s.take(k)[i].duration_secs >= 0 by {
                assert(s.take(k)[i] == s[i]);
            }
        }
        lemma_total_nonneg(s.take(k), subject);
    } else {
        assert(s.take(k) =~= s);
        lemma_total_nonneg(s, subject);
    }
}

proof fn lemma_total_nonneg(s: Seq<StudySession>, subject: Seq<char>)
    requires
        durations_nonneg(s),
    ensures
        duration_total(s, subject) >= 0,
    decreases s.len(),
{
    if s.len() > 0 {
        assert(durations_nonneg(s.drop_last())) by {
            assert forall|i: int| 0 <= i < s.len() - 1 implies #[trigger] s.drop_last()[i].duration_secs >= 0 by {
                assert(s.drop_last()[i] == s[i]);
            }
        }
        lemma_total_nonneg(s.drop_last(), subject);
        assert(s.last().duration_secs >= 0);
    }
}

impl Database {
    /// Records a study session stamped `now` with the next identifier. A
    /// negative duration is refused and changes nothing.
    pub fn create_session(&mut self, subject: &str, duration_secs: i64, notes: Option<&str>, now: i64) -> (r:
        Result<StudySession, CoreError>)
        requires
            old(self).wf(),
        ensures
            final(self).wf(),
            final(self).keeps_tasks_notes_goals(old(self)),
            r is Ok ==> final(self).next_id == old(self).next_id + 1,
            r is Err ==> final(self).next_id == old(self).next_id,
            r is Ok <==> duration_secs >= 0 && old(self).next_id < u64::MAX,
            duration_secs < 0 ==> r == Err::<StudySession, CoreError>(CoreError::Validation),
            duration_secs >= 0 && old(self).next_id == u64::MAX ==> r == Err::<StudySession, CoreError>(
                CoreError::StoreError,
            ),
            r matches Ok(s) ==> {
                &&& s.id@ == decimal(old(self).next_id as nat)
                &&& s.subject@ == subject@
                &&& s.duration_secs == duration_secs
                &&& same_text(s.notes, notes)
                &&& s.created_at == now && s.updated_at == now
                &&& final(self).sessions@ == old(self).sessions@.push(s)
                &&& !has_key(old(self).sessions@, s.id@)
            },
            r is Err ==> final(self).sessions@ == old(self).sessions@,
    {
        if duration_secs < 0 {
            return Err(CoreError::Validation);
        }
        let ghost next = self.next_id;
        match self.allocate_id() {
            Some(id) => {
                let s = StudySession {
                    id,
                    subject: subject.to_owned(),
                    duration_secs,
                    notes: own_text(notes),
                    created_at: now,
                    updated_at: now,
                };
                proof {
                    lemma_push_fresh(self.sessions@, next, s);
                }
                self.sessions.push(s.duplicate());
                Ok(s)
            },
            None => Err(CoreError::StoreError),
        }
    }

    /// The study session with identifier `id`.
    pub fn get_session(&self, id: &str) -> (r: Result<StudySession, CoreError>)
        requires
            self.wf(),
        ensures
            r is Ok <==> has_key(self.sessions@, id@),
            r matches Ok(s) ==> s == self.sessions@[key_pos(self.sessions@, id@)] && s.id@ == id@,
            r is Err ==> r == Err::<StudySession, CoreError>(CoreError::NotFound),
    {
        fetch(&self.sessions, id)
    }

    /// All study sessions, in stored order.
    pub fn list_sessions(&self) -> (r: Vec<StudySession>)
        ensures
            r@ == self.sessions@,
    {
        copy_all(&self.sessions)
    }

    /// The sessions of exactly `subject` (case-sensitive), in stored order.
    pub fn list_sessions_by_subject(&self, subject: &str) -> (r: Vec<StudySession>)
        ensures
            r@ == sessions_with_subject(self.sessions@, subject@),
    {
        let key = subject.to_owned();
        let mut out: Vec<StudySession> = Vec::new();
        let mut i: usize = 0;
        while i < self.sessions.len()
            invariant
                i <= self.sessions@.len(),
                key@ == subject@,
                out@ == sessions_with_subject(self.sessions@.take(i as int), subject@),
            decreases self.sessions@.len() - i,
        {
            assert(self.sessions@.take(i as int + 1).drop_last() =~= self.sessions@.take(i as int));
            if self.sessions[i].subject == key {
                out.push(self.sessions[i].duplicate());
            }
            i = i + 1;
        }
        assert(self.sessions@.take(self.sessions@.len() as int) =~= self.sessions@);
        out
    }

    /// The total duration, in seconds, of the sessions of exactly `subject`:
    /// 0 where there are none, and a store error where the sum does not fit.
    pub fn total_duration_for_subject(&self, subject: &str) -> (r: Result<i64, CoreError>)
        requires
            self.wf(),
        ensures
            r is Ok <==> duration_total(self.sessions@, subject@) <= i64::MAX,
            r matches Ok(t) ==> t == duration_total(self.sessions@, subject@) && t >= 0,
            r is Err ==> r == Err::<i64, CoreError>(CoreError::StoreError),
    {
        let key = subject.to_owned();
        let mut total: i64 = 0;
        let mut i: usize = 0;
        proof {
            lemma_total_grows(self.sessions@, subject@, 0);
        }
        while i < self.sessions.len()
            invariant
                i <= self.sessions@.len(),
                key@ == subject@,
                durations_nonneg(self.sessions@),
                total == duration_total(self.sessions@.take(i as int), subject@),
            decreases self.sessions@.len() - i,
        {
            assert(self.sessions@.take(i as int + 1).drop_last() =~= self.sessions@.take(i as int));
            proof {
                lemma_total_grows(self.sessions@, subject@, i as int + 1);
                lemma_total_grows(self.sessions@, subject@, i as int);
            }
            if self.sessions[i].subject == key {
                let d = self.sessions[i].duration_secs;
                match total.checked_add(d) {
                    Some(t) => {
                        total = t;
                    },
                    None => {
                        return Err(CoreError::StoreError);
                    },
                }
            }
            i = i + 1;
        }
        assert(self.sessions@.take(self.sessions@.len() as int) =~= self.sessions@);
        proof {
            lemma_total_nonneg(self.sessions@, subject@);
        }
        Ok(total)
    }

    /// Removes the study session with identifier `id`.
    pub fn delete_session(&mut self, id: &str) -> (r: Result<(), CoreError>)
        requires
            old(self).wf(),
        ensures
            final(self).wf(),
            final(self).keeps_tasks_notes_goals(old(self)),
            final(self).next_id == old(self).next_id,
            r is Ok <==> has_key(old(self).sessions@, id@),
            r is Ok ==> final(self).sessions@ == old(self).sessions@.remove(
                key_pos(old(self).sessions@, id@),
            ),
            r is Err ==> r == Err::<(), CoreError>(CoreError::NotFound) && final(self).sessions@
                == old(self).sessions@,
    {
        let ghost before = self.sessions@;
        let r = discard(&mut self.sessions, id);
        proof {
            if r is Ok {
                let p = key_pos(before, id@);
                lemma_remove(before, self.next_id, p);
                assert forall|i: int| 0 <= i < self.sessions@.len() implies #[trigger] self.sessions@[i].duration_secs
                    >= 0 by {
                    if i < p {
                        assert(self.sessions@[i] == before[i]);
                    } else {
                        assert(self.sessions@[i] == before[i + 1]);
                    }
                }
            }
        }
        r
    }
}

} // verus!

verus! {

/// `s` is a freshly recorded session with these inputs.
pub open spec fn new_session(
    s: StudySession,
    subject: Seq<char>,
    duration_secs: i64,
    notes: Option<&str>,
    now: i64,
) -> bool {
    &&& s.subject@ == subject
    &&& s.duration_secs == duration_secs
    &&& same_text(s.notes, notes)
    &&& s.created_at == now && s.updated_at == now
}

} // verus!
