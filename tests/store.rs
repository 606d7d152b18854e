use aathoos_core::boundary::{
    aathoos_goal_create, aathoos_goal_delete, aathoos_goal_get, aathoos_goal_list_all, aathoos_goal_set_progress,
    aathoos_note_create, aathoos_note_delete, aathoos_note_get, aathoos_note_list_all,
    aathoos_note_list_by_subject, aathoos_note_update_body, aathoos_study_session_create,
    aathoos_study_session_delete, aathoos_study_session_get, aathoos_study_session_list_all,
    aathoos_study_session_list_by_subject, aathoos_study_session_total_duration, aathoos_task_create,
    aathoos_task_delete, aathoos_task_get, aathoos_task_list_all, aathoos_task_list_incomplete,
    aathoos_task_set_completed, aathoos_task_update_title,
};
use aathoos_core::ident::{id_bound, id_text};
use aathoos_core::models::{CoreError, Priority, Record, StudySession, Task};
use aathoos_core::store::Database;

const NOW: i64 = 1_700_000_000;

fn task(db: &mut Database, title: &str, due: i64) -> Task {
    aathoos_task_create(db, Some(title), None, due, 1, NOW).unwrap()
}

#[test]
fn fresh_store_lists_write_spec_task_until_completed() {
    let mut db = Database::new();
    let t = aathoos_task_create(&mut db, Some("Write spec"), None, 0, 2, NOW).unwrap();
    assert_eq!(t.priority, Priority::High);
    let open = aathoos_task_list_incomplete(&db);
    assert_eq!(open.len(), 1);
    assert_eq!(open[0].id, t.id);
    assert_eq!(open[0].title, "Write spec");
    assert!(aathoos_task_set_completed(&mut db, Some(&t.id), true, NOW + 1));
    assert!(aathoos_task_list_incomplete(&db).is_empty());
    let all = aathoos_task_list_all(&db);
    assert_eq!(all.len(), 1);
    assert_eq!(all[0].id, t.id);
    assert!(all[0].completed);
    assert_eq!(all[0].updated_at, NOW + 1);
    assert_eq!(all[0].created_at, NOW);
}

#[test]
fn durations_of_a_subject_sum_exactly() {
    let mut db = Database::new();
    aathoos_study_session_create(&mut db, Some("math"), 30, None, NOW).unwrap();
    aathoos_study_session_create(&mut db, Some("math"), 45, Some("ch. 3"), NOW).unwrap();
    aathoos_study_session_create(&mut db, Some("Math"), 1000, None, NOW).unwrap();
    assert_eq!(aathoos_study_session_total_duration(&db, Some("math")), 75);
    assert_eq!(aathoos_study_session_total_duration(&db, Some("history")), 0);
    assert_eq!(aathoos_study_session_total_duration(&db, None), -1);
}

#[test]
fn total_that_does_not_fit_is_the_failure_sentinel() {
    let mut db = Database::new();
    aathoos_study_session_create(&mut db, Some("math"), i64::MAX, None, NOW).unwrap();
    aathoos_study_session_create(&mut db, Some("math"), 1, None, NOW).unwrap();
    assert_eq!(aathoos_study_session_total_duration(&db, Some("math")), -1);
    assert_eq!(db.total_duration_for_subject("math"), Err(CoreError::StoreError));
}

#[test]
fn null_title_creates_nothing_and_null_notes_are_absent() {
    let mut db = Database::new();
    assert!(aathoos_task_create(&mut db, None, Some("n"), 0, 0, NOW).is_none());
    assert!(aathoos_task_list_all(&db).is_empty());
    let t = aathoos_task_create(&mut db, Some("t"), None, 0, 0, NOW).unwrap();
    assert!(t.notes.is_none());
    assert_eq!(aathoos_task_get(&db, Some(&t.id)).unwrap().notes, None);
    let u = aathoos_task_create(&mut db, Some("u"), Some("details"), 0, 0, NOW).unwrap();
    assert_eq!(u.notes.as_deref(), Some("details"));
}

#[test]
fn created_identifiers_are_nonempty_and_distinct_across_kinds() {
    let mut db = Database::new();
    let a = task(&mut db, "a", 0).id;
    let b = aathoos_note_create(&mut db, Some("b"), None, None, NOW).unwrap().id;
    let c = aathoos_goal_create(&mut db, Some("c"), None, 0, NOW).unwrap().id;
    let d = aathoos_study_session_create(&mut db, Some("d"), 1, None, NOW).unwrap().id;
    assert!(aathoos_task_delete(&mut db, Some(&a)));
    let e = task(&mut db, "e", 0).id;
    let ids = vec![a, b, c, d, e];
    for (i, x) in ids.iter().enumerate() {
        assert!(!x.is_empty());
        for y in ids.iter().skip(i + 1) {
            assert_ne!(x, y);
        }
    }
}

#[test]
fn get_returns_what_create_returned() {
    let mut db = Database::new();
    let t = aathoos_task_create(&mut db, Some("t"), Some("n"), 1234, 0, NOW).unwrap();
    let g = aathoos_task_get(&db, Some(&t.id)).unwrap();
    assert_eq!((g.id, g.title, g.notes, g.due_date, g.priority, g.completed), (
        t.id.clone(),
        "t".to_string(),
        Some("n".to_string()),
        Some(1234),
        Priority::Low,
        false
    ));
    let n = aathoos_note_create(&mut db, Some("n"), Some("body"), Some("bio"), NOW).unwrap();
    let m = aathoos_note_get(&db, Some(&n.id)).unwrap();
    assert_eq!((m.title, m.body, m.subject), ("n".to_string(), "body".to_string(), Some("bio".to_string())));
    let s = aathoos_study_session_create(&mut db, Some("bio"), 60, None, NOW).unwrap();
    let r = aathoos_study_session_get(&db, Some(&s.id)).unwrap();
    assert_eq!((r.subject, r.duration_secs, r.notes), ("bio".to_string(), 60, None));
    assert!(aathoos_task_get(&db, None).is_none());
    assert!(aathoos_task_get(&db, Some("no such id")).is_none());
    assert_eq!(db.get_task("no such id").unwrap_err(), CoreError::NotFound);
}

#[test]
fn deleted_record_is_not_found_and_second_delete_fails() {
    let mut db = Database::new();
    let t = task(&mut db, "t", 0);
    let keep = task(&mut db, "keep", 0);
    assert!(aathoos_task_delete(&mut db, Some(&t.id)));
    assert_eq!(db.get_task(&t.id).unwrap_err(), CoreError::NotFound);
    assert!(!aathoos_task_delete(&mut db, Some(&t.id)));
    assert_eq!(aathoos_task_list_all(&db).len(), 1);
    assert_eq!(aathoos_task_get(&db, Some(&keep.id)).unwrap().title, "keep");
    let n = aathoos_note_create(&mut db, Some("n"), None, None, NOW).unwrap();
    assert!(aathoos_note_delete(&mut db, Some(&n.id)));
    assert!(!aathoos_note_delete(&mut db, Some(&n.id)));
    let g = aathoos_goal_create(&mut db, Some("g"), None, 0, NOW).unwrap();
    assert!(aathoos_goal_delete(&mut db, Some(&g.id)));
    assert!(aathoos_goal_get(&db, Some(&g.id)).is_none());
    let s = aathoos_study_session_create(&mut db, Some("s"), 5, None, NOW).unwrap();
    assert!(aathoos_study_session_delete(&mut db, Some(&s.id)));
    assert!(!aathoos_study_session_delete(&mut db, Some(&s.id)));
    assert!(!aathoos_study_session_delete(&mut db, None));
}

#[test]
fn full_progress_completes_a_goal() {
    let mut db = Database::new();
    let g = aathoos_goal_create(&mut db, Some("read"), Some("ten books"), 0, NOW).unwrap();
    assert_eq!(g.target_date, None);
    assert!(!g.completed);
    assert!(aathoos_goal_set_progress(&mut db, Some(&g.id), 0.5f64.to_bits(), NOW + 1));
    assert!(!aathoos_goal_get(&db, Some(&g.id)).unwrap().completed);
    assert!(aathoos_goal_set_progress(&mut db, Some(&g.id), 1.0f64.to_bits(), NOW + 2));
    let done = aathoos_goal_get(&db, Some(&g.id)).unwrap();
    assert!(done.completed);
    assert_eq!(f64::from_bits(done.progress_bits), 1.0);
    assert_eq!(done.updated_at, NOW + 2);
}

#[test]
fn progress_outside_unit_range_changes_nothing() {
    let mut db = Database::new();
    let g = aathoos_goal_create(&mut db, Some("g"), None, 99, NOW).unwrap();
    assert_eq!(g.target_date, Some(99));
    assert!(aathoos_goal_set_progress(&mut db, Some(&g.id), 0.25f64.to_bits(), NOW));
    for bad in [1.5f64, -0.1, f64::NAN, f64::INFINITY, f64::NEG_INFINITY, 1.0000001] {
        assert!(!aathoos_goal_set_progress(&mut db, Some(&g.id), bad.to_bits(), NOW + 5));
        assert_eq!(db.set_goal_progress(&g.id, bad.to_bits(), NOW + 5), Err(CoreError::Validation));
    }
    let after = aathoos_goal_get(&db, Some(&g.id)).unwrap();
    assert_eq!(f64::from_bits(after.progress_bits), 0.25);
    assert_eq!(after.updated_at, NOW);
    assert!(aathoos_goal_set_progress(&mut db, Some(&g.id), (-0.0f64).to_bits(), NOW));
    assert!(aathoos_goal_set_progress(&mut db, Some(&g.id), 0.0f64.to_bits(), NOW));
    assert_eq!(db.set_goal_progress("missing", 0, NOW), Err(CoreError::NotFound));
    assert_eq!(aathoos_goal_list_all(&db).len(), 1);
}

#[test]
fn incomplete_tasks_order_by_due_date_with_undated_last() {
    let mut db = Database::new();
    let a = task(&mut db, "undated-1", 0);
    let b = task(&mut db, "late", 300);
    let c = task(&mut db, "early", 100);
    let d = task(&mut db, "undated-2", 0);
    let e = task(&mut db, "late-2", 300);
    let f = task(&mut db, "done", 50);
    assert!(aathoos_task_set_completed(&mut db, Some(&f.id), true, NOW));
    let ids: Vec<String> = aathoos_task_list_incomplete(&db).into_iter().map(|t| t.id).collect();
    assert_eq!(ids, vec![c.id, b.id, e.id, a.id, d.id]);
}

#[test]
fn priority_ranks_decode_with_medium_default() {
    assert_eq!(Priority::from_rank(0), Priority::Low);
    assert_eq!(Priority::from_rank(1), Priority::Medium);
    assert_eq!(Priority::from_rank(2), Priority::High);
    assert_eq!(Priority::from_rank(7), Priority::Medium);
    assert_eq!(Priority::from_rank(-1), Priority::Medium);
    assert_eq!(Priority::High.rank(), 2);
    let mut db = Database::new();
    let t = aathoos_task_create(&mut db, Some("t"), None, 0, 9, NOW).unwrap();
    assert_eq!(t.priority, Priority::Medium);
}

#[test]
fn title_and_body_updates_touch_only_their_fields() {
    let mut db = Database::new();
    let t = aathoos_task_create(&mut db, Some("old"), Some("n"), 10, 2, NOW).unwrap();
    assert!(aathoos_task_update_title(&mut db, Some(&t.id), Some("new"), NOW + 3));
    let u = aathoos_task_get(&db, Some(&t.id)).unwrap();
    assert_eq!((u.title.as_str(), u.notes.as_deref(), u.due_date, u.updated_at), ("new", Some("n"), Some(10), NOW + 3));
    assert!(!aathoos_task_update_title(&mut db, Some(&t.id), None, NOW + 4));
    let kept = aathoos_task_get(&db, Some(&t.id)).unwrap();
    assert_eq!((kept.title.as_str(), kept.updated_at), ("new", NOW + 3));
    assert!(!aathoos_task_update_title(&mut db, None, Some("x"), NOW));
    assert!(!aathoos_task_set_completed(&mut db, Some("nope"), true, NOW));
    let n = aathoos_note_create(&mut db, Some("n"), None, None, NOW).unwrap();
    assert_eq!(n.body, "");
    assert!(aathoos_note_update_body(&mut db, Some(&n.id), Some("text"), NOW + 1));
    assert_eq!(aathoos_note_get(&db, Some(&n.id)).unwrap().body, "text");
    assert!(!aathoos_note_update_body(&mut db, Some("nope"), Some("text"), NOW));
}

#[test]
fn subject_listings_match_exactly_and_case_sensitively() {
    let mut db = Database::new();
    aathoos_note_create(&mut db, Some("a"), None, Some("bio"), NOW).unwrap();
    aathoos_note_create(&mut db, Some("b"), None, Some("Bio"), NOW).unwrap();
    aathoos_note_create(&mut db, Some("c"), None, None, NOW).unwrap();
    aathoos_note_create(&mut db, Some("d"), None, Some("bio"), NOW).unwrap();
    let titles: Vec<String> =
        aathoos_note_list_by_subject(&db, Some("bio")).unwrap().into_iter().map(|n| n.title).collect();
    assert_eq!(titles, vec!["a".to_string(), "d".to_string()]);
    assert!(aathoos_note_list_by_subject(&db, None).is_none());
    assert_eq!(aathoos_note_list_all(&db).len(), 4);
    aathoos_study_session_create(&mut db, Some("bio"), 1, None, NOW).unwrap();
    aathoos_study_session_create(&mut db, Some("chem"), 2, None, NOW).unwrap();
    let s: Vec<StudySession> = aathoos_study_session_list_by_subject(&db, Some("chem")).unwrap();
    assert_eq!(s.len(), 1);
    assert_eq!(s[0].duration_secs, 2);
    assert!(aathoos_study_session_list_by_subject(&db, None).is_none());
    assert_eq!(aathoos_study_session_list_all(&db).len(), 2);
}

#[test]
fn negative_duration_is_refused() {
    let mut db = Database::new();
    assert!(aathoos_study_session_create(&mut db, Some("m"), -1, None, NOW).is_none());
    assert_eq!(db.create_session("m", -5, None, NOW).unwrap_err(), CoreError::Validation);
    assert!(aathoos_study_session_create(&mut db, None, 5, None, NOW).is_none());
    assert!(aathoos_study_session_list_all(&db).is_empty());
}

#[test]
fn identifiers_are_decimal_counter_values() {
    assert_eq!(id_text(0), "0");
    assert_eq!(id_text(7), "7");
    assert_eq!(id_text(1204), "1204");
    assert_eq!(id_text(u64::MAX), "18446744073709551615");
    assert_eq!(id_bound("41"), Some(42));
    assert_eq!(id_bound("task-9"), Some(0));
    assert_eq!(id_bound(""), Some(0));
    assert_eq!(id_bound("18446744073709551614"), Some(u64::MAX));
    assert_eq!(id_bound("18446744073709551615"), None);
    let mut db = Database::new();
    assert_eq!(task(&mut db, "a", 0).id, "1");
    assert_eq!(task(&mut db, "b", 0).id, "2");
}

#[test]
fn counter_exhaustion_is_a_store_error() {
    let mut db = Database::new();
    db.next_id = u64::MAX;
    assert_eq!(db.create_task("t", None, None, Priority::Low, NOW).unwrap_err(), CoreError::StoreError);
    assert!(aathoos_goal_create(&mut db, Some("g"), None, 0, NOW).is_none());
    assert!(aathoos_task_list_all(&db).is_empty());
}

#[test]
fn restore_resumes_the_counter_and_rejects_bad_snapshots() {
    let mut db = Database::new();
    task(&mut db, "a", 0);
    task(&mut db, "b", 0);
    aathoos_note_create(&mut db, Some("n"), None, None, NOW).unwrap();
    let tasks = aathoos_task_list_all(&db);
    let notes = aathoos_note_list_all(&db);
    let mut back = Database::restore(tasks, notes, Vec::new(), Vec::new(), 0).unwrap();
    assert_eq!(back.next_id, 4);
    let t = task(&mut back, "c", 0);
    assert_eq!(t.id, "4");
    let mut dup = aathoos_task_list_all(&back);
    let first = dup[0].duplicate();
    dup.push(first);
    assert!(Database::restore(dup, Vec::new(), Vec::new(), Vec::new(), 0).is_none());
    let mut g = Database::new();
    let goal = aathoos_goal_create(&mut g, Some("g"), None, 0, NOW).unwrap();
    let finished_early = aathoos_core::models::Goal { completed: true, ..goal };
    assert!(Database::restore(Vec::new(), Vec::new(), vec![finished_early], Vec::new(), 0).is_none());
    let goal = aathoos_goal_create(&mut g, Some("h"), None, 0, NOW).unwrap();
    let overshoot = aathoos_core::models::Goal { progress_bits: 2.0f64.to_bits(), ..goal };
    assert!(Database::restore(Vec::new(), Vec::new(), vec![overshoot], Vec::new(), 0).is_none());
    let mut neg = Database::new();
    let s = aathoos_study_session_create(&mut neg, Some("m"), 5, None, NOW).unwrap();
    let bad = StudySession { duration_secs: -5, ..s };
    assert!(Database::restore(Vec::new(), Vec::new(), Vec::new(), vec![bad], 0).is_none());
}

#[test]
fn reopened_store_does_not_reuse_a_deleted_identifier() {
    let mut db = Database::new();
    let one = task(&mut db, "one", 0);
    let two = task(&mut db, "two", 0);
    assert_eq!((one.id.as_str(), two.id.as_str()), ("1", "2"));
    assert!(aathoos_task_delete(&mut db, Some(&two.id)));
    let saved = db.next_id;
    let mut back = Database::restore(aathoos_task_list_all(&db), Vec::new(), Vec::new(), Vec::new(), saved).unwrap();
    assert_eq!(back.next_id, 3);
    let three = task(&mut back, "three", 0);
    assert_eq!(three.id, "3");
    assert!(!aathoos_task_delete(&mut back, Some("2")));
    assert_eq!(aathoos_task_list_all(&back).len(), 2);
}

#[test]
fn restored_counter_is_past_both_saved_value_and_stored_identifiers() {
    let mut db = Database::new();
    for _ in 0..5 {
        task(&mut db, "t", 0);
    }
    let tasks = aathoos_task_list_all(&db);
    let back = Database::restore(tasks, Vec::new(), Vec::new(), Vec::new(), 2).unwrap();
    assert_eq!(back.next_id, 6);
    let empty = Database::restore(Vec::new(), Vec::new(), Vec::new(), Vec::new(), 0).unwrap();
    assert_eq!(empty.next_id, 1);
    let later = Database::restore(Vec::new(), Vec::new(), Vec::new(), Vec::new(), 40).unwrap();
    assert_eq!(later.next_id, 40);
}
