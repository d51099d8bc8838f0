use singletask::process::{
    apply_cache_hit, apply_cache_refresh, determine_freshness, filter_completed_task,
    get_content_color_class, get_or_create_user_state, merge_skip_task_ids, more_tasks,
    CacheResult,
};
use singletask::tasks::{Priority, Task};
use singletask::UserState;

fn task(id: &str) -> Task {
    Task {
        id: id.to_string(),
        content: String::new(),
        priority: Priority::NoPriority,
        description: String::new(),
        labels: Vec::new(),
        parent_id: None,
        project_id: "p".to_string(),
        due: None,
        is_completed: None,
        is_deleted: None,
        checked: None,
        duration: None,
    }
}

fn due_task(id: &str, date: &str) -> Task {
    let mut t = task(id);
    t.due = Some(singletask::tasks::DateInfo {
        date: date.to_string(),
        is_recurring: false,
        string: date.to_string(),
        timezone: None,
    });
    t
}

fn entry(tasks: Vec<Task>, skips: Vec<&str>, fetched_at: Option<i64>) -> UserState {
    UserState {
        tasks,
        skip_task_ids: skips.into_iter().map(|s| s.to_string()).collect(),
        tasks_updated_at: fetched_at,
        unsplash: None,
        unsplash_updated_at: None,
        timezone: None,
    }
}

fn ids(tasks: &[Task]) -> Vec<String> {
    tasks.iter().map(|t| t.id.clone()).collect()
}

#[test]
fn fresh_entry_is_zero_valued() {
    let e = get_or_create_user_state(None);
    assert!(e.tasks.is_empty());
    assert!(e.skip_task_ids.is_empty());
    assert_eq!(e.tasks_updated_at, None);
    assert_eq!(e.unsplash, None);
    assert_eq!(e.unsplash_updated_at, None);
    assert_eq!(e.timezone, None);
}

#[test]
fn existing_entry_is_returned() {
    let e = entry(vec![task("a")], vec!["x"], Some(7));
    let got = get_or_create_user_state(Some(e.clone()));
    assert_eq!(got, e);
}

#[test]
fn returned_tasks_avoid_suppressed_ids() {
    // With no completion and no skip, nothing returned carries a
    // suppressed identifier.
    let e = entry(vec![task("a"), task("b"), task("c")], vec!["b"], Some(0));
    let after = apply_cache_hit(e, None, None);
    for t in &after.tasks {
        assert!(!after.skip_task_ids.contains(&t.id));
    }
    assert_eq!(ids(&after.tasks), vec!["a".to_string(), "c".to_string()]);
}

#[test]
fn skip_twice_is_skip_once() {
    let e = entry(vec![task("a"), task("b"), task("c")], vec![], Some(0));
    let skip = "b".to_string();
    let once = apply_cache_hit(e, None, Some(&skip));
    let twice = apply_cache_hit(once.clone(), None, Some(&skip));
    assert_eq!(once.tasks, twice.tasks);
    assert_eq!(once.skip_task_ids, twice.skip_task_ids);
    assert_eq!(ids(&once.tasks), vec!["a".to_string(), "c".to_string()]);
}

#[test]
fn freshness_is_monotone_in_age() {
    // Fetched at instant 0; 14 minutes later the entry hits, 15 minutes
    // later it must refresh.
    let e = entry(vec![task("a")], vec![], Some(0));
    assert_eq!(determine_freshness(&e, 14 * 60, None, None), CacheResult::Hit);
    assert_eq!(determine_freshness(&e, 15 * 60, None, None), CacheResult::Expired);
}

#[test]
fn freshness_needs_a_remaining_task() {
    // Young entry, but completing its only task: no task would remain, so
    // the entry counts as expired.
    let e = entry(vec![task("a")], vec![], Some(0));
    let completing = "a".to_string();
    assert_eq!(determine_freshness(&e, 60, Some(&completing), None), CacheResult::Expired);
    assert_eq!(determine_freshness(&e, 60, None, None), CacheResult::Hit);
}

#[test]
fn freshness_of_unfetched_entry_is_miss() {
    let e = entry(vec![], vec![], None);
    assert_eq!(determine_freshness(&e, 0, None, None), CacheResult::Miss);
}

#[test]
fn completing_a_task_hits_cache_and_keeps_fetch_instant() {
    // Entry fetched 10 minutes ago with one dated and one undated task;
    // completing the first returns only the second and leaves the fetch
    // instant alone.
    let now: i64 = 6_000_000;
    let fetched_at = now - 600;
    let t1 = due_task("t1", "2030-01-01");
    let t2 = task("t2");
    let e = entry(vec![t1, t2.clone()], vec![], Some(fetched_at));
    let completing = "t1".to_string();
    assert_eq!(determine_freshness(&e, now, Some(&completing), None), CacheResult::Hit);
    let after = apply_cache_hit(e, Some(&completing), None);
    assert_eq!(after.tasks, vec![t2]);
    assert_eq!(after.tasks_updated_at, Some(fetched_at));
}

#[test]
fn stale_entry_refreshes_and_drops_old_suppressions() {
    // Entry fetched 20 minutes ago: the read must refresh, start the
    // suppressed set over with only this request's skip, and stamp a new
    // fetch instant.
    let now: i64 = 6_000_000;
    let e = entry(vec![task("a")], vec!["old1", "old2"], Some(now - 1200));
    let skip = "s".to_string();
    assert_eq!(determine_freshness(&e, now, None, Some(&skip)), CacheResult::Expired);
    let fetched = vec![task("a"), task("s"), task("old1")];
    let after = apply_cache_refresh(e, fetched, now, None, Some(&skip));
    assert_eq!(after.skip_task_ids, vec!["s".to_string()]);
    // The previously suppressed task resurfaces; the fresh skip holds.
    assert_eq!(ids(&after.tasks), vec!["a".to_string(), "old1".to_string()]);
    assert_eq!(after.tasks_updated_at, Some(now));
}

#[test]
fn merge_skip_has_set_semantics() {
    let e = entry(vec![], vec!["x"], None);
    let x = "x".to_string();
    let y = "y".to_string();
    assert_eq!(merge_skip_task_ids(&e, Some(&x)), vec!["x".to_string()]);
    assert_eq!(merge_skip_task_ids(&e, Some(&y)), vec!["x".to_string(), "y".to_string()]);
    assert_eq!(merge_skip_task_ids(&e, None), vec!["x".to_string()]);
}

#[test]
fn filter_removes_completing_and_suppressed() {
    let skips = vec!["b".to_string()];
    let completing = "c".to_string();
    let out = filter_completed_task(
        vec![task("a"), task("b"), task("c"), task("d")],
        Some(&completing),
        &skips,
    );
    assert_eq!(ids(&out), vec!["a".to_string(), "d".to_string()]);
}

#[test]
fn filter_without_completion_removes_nothing_extra() {
    // A task with an empty identifier survives a read with no completion.
    let out = filter_completed_task(vec![task(""), task("a")], None, &Vec::new());
    assert_eq!(ids(&out), vec!["".to_string(), "a".to_string()]);
}

#[test]
fn more_tasks_sees_through_suppressions() {
    let e = entry(vec![task("a"), task("b")], vec!["a"], Some(0));
    let skip = "b".to_string();
    assert!(more_tasks(&e, None, None));
    assert!(!more_tasks(&e, None, Some(&skip)));
}

#[test]
fn content_color_class_follows_priority() {
    let mut t = task("a");
    assert_eq!(get_content_color_class(&t), "has-text-white");
    t.priority = Priority::Low;
    assert_eq!(get_content_color_class(&t), "has-text-primary");
    t.priority = Priority::Medium;
    assert_eq!(get_content_color_class(&t), "has-text-warning");
    t.priority = Priority::High;
    assert_eq!(get_content_color_class(&t), "has-text-danger");
}

#[test]
fn priority_levels_round_trip() {
    assert_eq!(Priority::NoPriority.level(), 1);
    assert_eq!(Priority::High.level(), 4);
    assert_eq!(Priority::from_level(2), Some(Priority::Low));
    assert_eq!(Priority::from_level(3), Some(Priority::Medium));
    assert_eq!(Priority::from_level(0), None);
    assert_eq!(Priority::from_level(5), None);
    assert_eq!(Priority::Medium.text(), "Medium");
}
