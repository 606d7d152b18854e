//! The operations that foreign callers reach, one per entry point. Each takes
//! decoded inputs (a text that was null or not decodable arrives as `None`),
//! delegates to one store operation, and folds every failure into the
//! sentinel of its result shape: `None` for a payload, `false` for a mutation,
//! `-1` for an aggregate.
use vstd::prelude::*;

use crate::goals::{goal_progressed, new_goal};
use crate::ident::decimal;
use crate::models::{progress_in_range, priority_of_rank, Goal, Note, Priority, StudySession, Task};
use crate::notes::{new_note, note_rewritten, notes_with_subject};
use crate::sessions::{duration_total, new_session, sessions_with_subject};
use crate::store::{has_key, key_pos, Database};
use crate::tasks::{incomplete_by_due, new_task, task_marked, task_retitled};

verus! {

/// A raw timestamp where 0 means "none given".
pub open spec fn optional_date(raw: i64) -> Option<i64> {
    if raw == 0 {
        None
    } else {
        Some(raw)
    }
}

/// An optional text where absence reads as the empty text.
pub open spec fn text_or_empty(s: Option<&str>) -> Seq<char> {
    match s {
        Some(t) => t@,
        None => Seq::empty(),
    }
}

pub fn date_from_raw(raw: i64) -> (r: Option<i64>)
    ensures
        r == optional_date(raw),
{
    if raw == 0 {
        None
    } else {
        Some(raw)
    }
}

pub fn str_or_empty<'a>(s: Option<&'a str>) -> (r: &'a str)
    ensures
        r@ == text_or_empty(s),
{
    match s {
        Some(t) => t,
        None => {
            proof {
                reveal_strlit("");
            }
            ""
        },
    }
}

/// Creates a task; `due_date` 0 means none, `priority` is a rank (0 low,
/// 1 medium, 2 high, anything else medium). A missing title creates nothing.
pub fn aathoos_task_create(
    db: &mut Database,
    title: Option<&str>,
    notes: Option<&str>,
    due_date: i64,
    priority: i32,
    now: i64,
) -> (r: Option<Task>)
    requires
        old(db).wf(),
    ensures
        final(db).wf(),
        final(db).keeps_notes_goals_sessions(old(db)),
        r is Some <==> title is Some && old(db).next_id < u64::MAX,
        final(db).next_id == if r is Some { old(db).next_id + 1 } else { old(db).next_id as int },
        r matches Some(t) ==> t.id@ == decimal(old(db).next_id as nat) && new_task(
            t,
            title->Some_0@,
            notes,
            optional_date(due_date),
            priority_of_rank(priority as i64),
            now,
        ) && final(db).tasks@ == old(db).tasks@.push(t),
        r is None ==> final(db).tasks@ == old(db).tasks@,
{
    let title = match title {
        Some(t) => t,
        None => return None,
    };
    let due = date_from_raw(due_date);
    let rank = Priority::from_rank(priority as i64);
    match db.create_task(title, notes, due, rank, now) {
        Ok(t) => Some(t),
        Err(_) => None,
    }
}

pub fn aathoos_task_get(db: &Database, id: Option<&str>) -> (r: Option<Task>)
    requires
        db.wf(),
    ensures
        r is Some <==> id is Some && has_key(db.tasks@, id->Some_0@),
        r matches Some(t) ==> t == db.tasks@[key_pos(db.tasks@, id->Some_0@)],
{
    let id = match id {
        Some(i) => i,
        None => return None,
    };
    match db.get_task(id) {
        Ok(t) => Some(t),
        Err(_) => None,
    }
}

pub fn aathoos_task_list_all(db: &Database) -> (r: Vec<Task>)
    ensures
        r@ == db.tasks@,
{
    db.list_tasks()
}

pub fn aathoos_task_list_incomplete(db: &Database) -> (r: Vec<Task>)
    ensures
        r@ == incomplete_by_due(db.tasks@),
{
    db.list_incomplete_tasks()
}

pub fn aathoos_task_set_completed(db: &mut Database, id: Option<&str>, completed: bool, now: i64) -> (r: bool)
    requires
        old(db).wf(),
    ensures
        final(db).wf(),
        final(db).next_id == old(db).next_id,
        final(db).keeps_notes_goals_sessions(old(db)),
        r == (id is Some && has_key(old(db).tasks@, id->Some_0@)),
        r ==> task_marked(old(db).tasks@, final(db).tasks@, id->Some_0@, completed, now),
        !r ==> final(db).tasks@ == old(db).tasks@,
{
    let id = match id {
        Some(i) => i,
        None => return false,
    };
    db.set_task_completed(id, completed, now).is_ok()
}

/// Retitles a task; a missing title is refused and changes nothing.
pub fn aathoos_task_update_title(db: &mut Database, id: Option<&str>, title: Option<&str>, now: i64) -> (r:
    bool)
    requires
        old(db).wf(),
    ensures
        final(db).wf(),
        final(db).next_id == old(db).next_id,
        final(db).keeps_notes_goals_sessions(old(db)),
        r == (id is Some && title is Some && has_key(old(db).tasks@, id->Some_0@)),
        r ==> task_retitled(old(db).tasks@, final(db).tasks@, id->Some_0@, text_or_empty(title), now),
        !r ==> final(db).tasks@ == old(db).tasks@,
{
    let id = match id {
        Some(i) => i,
        None => return false,
    };
    let title = match title {
        Some(t) => t,
        None => return false,
    };
    db.update_task_title(id, title, now).is_ok()
}

pub fn aathoos_task_delete(db: &mut Database, id: Option<&str>) -> (r: bool)
    requires
        old(db).wf(),
    ensures
        final(db).wf(),
        final(db).next_id == old(db).next_id,
        final(db).keeps_notes_goals_sessions(old(db)),
        r == (id is Some && has_key(old(db).tasks@, id->Some_0@)),
        r ==> final(db).tasks@ == old(db).tasks@.remove(key_pos(old(db).tasks@, id->Some_0@)),
        !r ==> final(db).tasks@ == old(db).tasks@,
{
    let id = match id {
        Some(i) => i,
        None => return false,
    };
    db.delete_task(id).is_ok()
}

/// Creates a note; a missing body reads as empty, a missing subject as none.
pub fn aathoos_note_create(
    db: &mut Database,
    title: Option<&str>,
    body: Option<&str>,
    subject: Option<&str>,
    now: i64,
) -> (r: Option<Note>)
    requires
        old(db).wf(),
    ensures
        final(db).wf(),
        final(db).keeps_tasks_goals_sessions(old(db)),
        r is Some <==> title is Some && old(db).next_id < u64::MAX,
        final(db).next_id == if r is Some { old(db).next_id + 1 } else { old(db).next_id as int },
        r matches Some(n) ==> n.id@ == decimal(old(db).next_id as nat) && new_note(
            n,
            title->Some_0@,
            text_or_empty(body),
            subject,
            now,
        ) && final(db).notes@ == old(db).notes@.push(n),
        r is None ==> final(db).notes@ == old(db).notes@,
{
    let title = match title {
        Some(t) => t,
        None => return None,
    };
    let body = str_or_empty(body);
    match db.create_note(title, body, subject, now) {
        Ok(n) => Some(n),
        Err(_) => None,
    }
}

pub fn aathoos_note_get(db: &Database, id: Option<&str>) -> (r: Option<Note>)
    requires
        db.wf(),
    ensures
        r is Some <==> id is Some && has_key(db.notes@, id->Some_0@),
        r matches Some(n) ==> n == db.notes@[key_pos(db.notes@, id->Some_0@)],
{
    let id = match id {
        Some(i) => i,
        None => return None,
    };
    match db.get_note(id) {
        Ok(n) => Some(n),
        Err(_) => None,
    }
}

pub fn aathoos_note_list_all(db: &Database) -> (r: Vec<Note>)
    ensures
        r@ == db.notes@,
{
    db.list_notes()
}

pub fn aathoos_note_list_by_subject(db: &Database, subject: Option<&str>) -> (r: Option<Vec<Note>>)
    ensures
        r is Some <==> subject is Some,
        r matches Some(v) ==> v@ == notes_with_subject(db.notes@, subject->Some_0@),
{
    match subject {
        Some(s) => Some(db.list_notes_by_subject(s)),
        None => None,
    }
}

/// Replaces a note's body; a missing body reads as empty.
pub fn aathoos_note_update_body(db: &mut Database, id: Option<&str>, body: Option<&str>, now: i64) -> (r: bool)
    requires
        old(db).wf(),
    ensures
        final(db).wf(),
        final(db).next_id == old(db).next_id,
        final(db).keeps_tasks_goals_sessions(old(db)),
        r == (id is Some && has_key(old(db).notes@, id->Some_0@)),
        r ==> note_rewritten(old(db).notes@, final(db).notes@, id->Some_0@, text_or_empty(body), now),
        !r ==> final(db).notes@ == old(db).notes@,
{
    let id = match id {
        Some(i) => i,
        None => return false,
    };
    let body = str_or_empty(body);
    db.update_note_body(id, body, now).is_ok()
}

pub fn aathoos_note_delete(db: &mut Database, id: Option<&str>) -> (r: bool)
    requires
        old(db).wf(),
    ensures
        final(db).wf(),
        final(db).next_id == old(db).next_id,
        final(db).keeps_tasks_goals_sessions(old(db)),
        r == (id is Some && has_key(old(db).notes@, id->Some_0@)),
        r ==> final(db).notes@ == old(db).notes@.remove(key_pos(old(db).notes@, id->Some_0@)),
        !r ==> final(db).notes@ == old(db).notes@,
{
    let id = match id {
        Some(i) => i,
        None => return false,
    };
    db.delete_note(id).is_ok()
}

/// Creates a goal; `target_date` 0 means none.
pub fn aathoos_goal_create(
    db: &mut Database,
    title: Option<&str>,
    description: Option<&str>,
    target_date: i64,
    now: i64,
) -> (r: Option<Goal>)
    requires
        old(db).wf(),
    ensures
        final(db).wf(),
        final(db).keeps_tasks_notes_sessions(old(db)),
        r is Some <==> title is Some && old(db).next_id < u64::MAX,
        final(db).next_id == if r is Some { old(db).next_id + 1 } else { old(db).next_id as int },
        r matches Some(g) ==> g.id@ == decimal(old(db).next_id as nat) && new_goal(
            g,
            title->Some_0@,
            description,
            optional_date(target_date),
            now,
        ) && final(db).goals@ == old(db).goals@.push(g),
        r is None ==> final(db).goals@ == old(db).goals@,
{
    let title = match title {
        Some(t) => t,
        None => return None,
    };
    let target = date_from_raw(target_date);
    match db.create_goal(title, description, target, now) {
        Ok(g) => Some(g),
        Err(_) => None,
    }
}

pub fn aathoos_goal_get(db: &Database, id: Option<&str>) -> (r: Option<Goal>)
    requires
        db.wf(),
    ensures
        r is Some <==> id is Some && has_key(db.goals@, id->Some_0@),
        r matches Some(g) ==> g == db.goals@[key_pos(db.goals@, id->Some_0@)],
{
    let id = match id {
        Some(i) => i,
        None => return None,
    };
    match db.get_goal(id) {
        Ok(g) => Some(g),
        Err(_) => None,
    }
}

pub fn aathoos_goal_list_all(db: &Database) -> (r: Vec<Goal>)
    ensures
        r@ == db.goals@,
{
    db.list_goals()
}

/// Sets a goal's progress, given as the bits of a binary64 value in `[0.0, 1.0]`.
pub fn aathoos_goal_set_progress(db: &mut Database, id: Option<&str>, progress_bits: u64, now: i64) -> (r:
    bool)
    requires
        old(db).wf(),
    ensures
        final(db).wf(),
        final(db).next_id == old(db).next_id,
        final(db).keeps_tasks_notes_sessions(old(db)),
        r == (id is Some && progress_in_range(progress_bits) && has_key(old(db).goals@, id->Some_0@)),
        r ==> goal_progressed(old(db).goals@, final(db).goals@, id->Some_0@, progress_bits, now),
        !r ==> final(db).goals@ == old(db).goals@,
{
    let id = match id {
        Some(i) => i,
        None => return false,
    };
    db.set_goal_progress(id, progress_bits, now).is_ok()
}

pub fn aathoos_goal_delete(db: &mut Database, id: Option<&str>) -> (r: bool)
    requires
        old(db).wf(),
    ensures
        final(db).wf(),
        final(db).next_id == old(db).next_id,
        final(db).keeps_tasks_notes_sessions(old(db)),
        r == (id is Some && has_key(old(db).goals@, id->Some_0@)),
        r ==> final(db).goals@ == old(db).goals@.remove(key_pos(old(db).goals@, id->Some_0@)),
        !r ==> final(db).goals@ == old(db).goals@,
{
    let id = match id {
        Some(i) => i,
        None => return false,
    };
    db.delete_goal(id).is_ok()
}

/// Records a study session; a missing subject or a negative duration records nothing.
pub fn aathoos_study_session_create(
    db: &mut Database,
    subject: Option<&str>,
    duration_secs: i64,
    notes: Option<&str>,
    now: i64,
) -> (r: Option<StudySession>)
    requires
        old(db).wf(),
    ensures
        final(db).wf(),
        final(db).keeps_tasks_notes_goals(old(db)),
        r is Some <==> subject is Some && duration_secs >= 0 && old(db).next_id < u64::MAX,
        final(db).next_id == if r is Some { old(db).next_id + 1 } else { old(db).next_id as int },
        r matches Some(s) ==> s.id@ == decimal(old(db).next_id as nat) && new_session(
            s,
            subject->Some_0@,
            duration_secs,
            notes,
            now,
        ) && final(db).sessions@ == old(db).sessions@.push(s),
        r is None ==> final(db).sessions@ == old(db).sessions@,
{
    let subject = match subject {
        Some(s) => s,
        None => return None,
    };
    match db.create_session(subject, duration_secs, notes, now) {
        Ok(s) => Some(s),
        Err(_) => None,
    }
}

pub fn aathoos_study_session_get(db: &Database, id: Option<&str>) -> (r: Option<StudySession>)
    requires
        db.wf(),
    ensures
        r is Some <==> id is Some && has_key(db.sessions@, id->Some_0@),
        r matches Some(s) ==> s == db.sessions@[key_pos(db.sessions@, id->Some_0@)],
{
    let id = match id {
        Some(i) => i,
        None => return None,
    };
    match db.get_session(id) {
        Ok(s) => Some(s),
        Err(_) => None,
    }
}

pub fn aathoos_study_session_list_all(db: &Database) -> (r: Vec<StudySession>)
    ensures
        r@ == db.sessions@,
{
    db.list_sessions()
}

pub fn aathoos_study_session_list_by_subject(db: &Database, subject: Option<&str>) -> (r: Option<
    Vec<StudySession>,
>)
    ensures
        r is Some <==> subject is Some,
        r matches Some(v) ==> v@ == sessions_with_subject(db.sessions@, subject->Some_0@),
{
    match subject {
        Some(s) => Some(db.list_sessions_by_subject(s)),
        None => None,
    }
}

/// Total seconds studied for a subject, or -1 where the subject is missing or
/// the total does not fit.
pub fn aathoos_study_session_total_duration(db: &Database, subject: Option<&str>) -> (r: i64)
    requires
        db.wf(),
    ensures
        subject is None ==> r == -1,
        subject matches Some(s) ==> if duration_total(db.sessions@, s@) <= i64::MAX {
            r == duration_total(db.sessions@, s@)
        } else {
            r == -1
        },
{
    match subject {
        Some(s) => match db.total_duration_for_subject(s) {
            Ok(t) => t,
            Err(_) => -1,
        },
        None => -1,
    }
}

pub fn aathoos_study_session_delete(db: &mut Database, id: Option<&str>) -> (r: bool)
    requires
        old(db).wf(),
    ensures
        final(db).wf(),
        final(db).next_id == old(db).next_id,
        final(db).keeps_tasks_notes_goals(old(db)),
        r == (id is Some && has_key(old(db).sessions@, id->Some_0@)),
        r ==> final(db).sessions@ == old(db).sessions@.remove(key_pos(old(db).sessions@, id->Some_0@)),
        !r ==> final(db).sessions@ == old(db).sessions@,
{
    let id = match id {
        Some(i) => i,
        None => return false,
    };
    db.delete_session(id).is_ok()
}

} // verus!
