use singletask::error;
use singletask::process::markdown_to_html;
use singletask::request::handle_response;
use singletask::responses::ResponseFromFile;
use singletask::tasks::{
    complete_task_command, effective_due_key, merge_task_lists, split_filters, sync_url, tasks_url,
    DateInfo, Priority, Task,
};
use singletask::unsplash::{apply_unsplash_update, cached_unsplash, stub};
use singletask::user::{apply_timezone_update, cached_timezone, user_sync_body};
use singletask::{env_from_str, fetch_parameter, get_nav, make_key, str_eq, Env, UserState};

fn task(id: &str) -> Task {
    Task {
        id: id.to_string(),
        content: String::new(),
        priority: Priority::NoPriority,
        description: String::new(),
        labels: Vec::new(),
        parent_id: None,
        project_id: "p".to_string(),
        due: None,
        is_completed: None,
        is_deleted: None,
        checked: None,
        duration: None,
    }
}

fn due_task(id: &str, date: &str) -> Task {
    let mut t = task(id);
    t.due = Some(DateInfo {
        date: date.to_string(),
        is_recurring: false,
        string: date.to_string(),
        timezone: None,
    });
    t
}

fn ids(tasks: &[Task]) -> Vec<String> {
    tasks.iter().map(|t| t.id.clone()).collect()
}

#[test]
fn split_filters_on_commas() {
    assert_eq!(split_filters("A,B"), vec!["A".to_string(), "B".to_string()]);
    assert_eq!(split_filters(""), vec!["".to_string()]);
    assert_eq!(split_filters("a,,b"), vec!["a".to_string(), "".to_string(), "b".to_string()]);
    assert_eq!(split_filters("#checklist"), vec!["#checklist".to_string()]);
}

#[test]
fn tasks_url_percent_encodes_the_filter() {
    assert_eq!(tasks_url("#checklist"), "/rest/v2/tasks/?filter=%23checklist");
    assert_eq!(tasks_url("plain"), "/rest/v2/tasks/?filter=plain");
    assert_eq!(sync_url(), "/sync/v9/sync");
}

#[test]
fn multi_filter_merge_sorts_by_effective_instant() {
    // Two tasks for one sub-filter, three for the other, no overlap: five
    // tasks out, ascending by effective instant, date-only values read as
    // 23:59 local time, undated tasks last in their original order.
    let utc = chrono_tz::Tz::UTC;
    let list_a = vec![due_task("t1", "2024-01-03"), task("t2")];
    let list_b = vec![
        due_task("t3", "2024-01-03T10:00:00"),
        due_task("t4", "2024-01-02T00:00:00Z"),
        task("t5"),
    ];
    let merged = merge_task_lists(vec![list_a, list_b], &utc).unwrap();
    assert_eq!(merged.len(), 5);
    assert_eq!(
        ids(&merged),
        vec![
            "t4".to_string(),
            "t3".to_string(),
            "t1".to_string(),
            "t2".to_string(),
            "t5".to_string(),
        ],
    );
}

#[test]
fn merge_keeps_original_order_for_equal_keys() {
    let utc = chrono_tz::Tz::UTC;
    let list_a = vec![due_task("first", "2024-01-03T10:00:00"), task("u1")];
    let list_b = vec![due_task("second", "2024-01-03T10:00:00"), task("u2")];
    let merged = merge_task_lists(vec![list_a, list_b], &utc).unwrap();
    assert_eq!(
        ids(&merged),
        vec!["first".to_string(), "second".to_string(), "u1".to_string(), "u2".to_string()],
    );
}

#[test]
fn merge_fails_on_unreadable_due_value() {
    let utc = chrono_tz::Tz::UTC;
    let err = merge_task_lists(vec![vec![due_task("bad", "someday")]], &utc).unwrap_err();
    assert_eq!(err.code, 500);
}

#[test]
fn effective_key_honours_timezone_override() {
    let utc = chrono_tz::Tz::UTC;
    let mut t = due_task("t", "2024-01-02T03:04:05");
    let in_utc = effective_due_key(&t, &utc).unwrap().unwrap();
    assert_eq!(in_utc, 1_704_164_645);
    t.due.as_mut().unwrap().timezone = Some("America/Los_Angeles".to_string());
    let in_la = effective_due_key(&t, &utc).unwrap().unwrap();
    assert_eq!(in_la, 1_704_193_445);
    assert_eq!(effective_due_key(&task("no-due"), &utc).unwrap(), None);
}

#[test]
fn completion_command_closes_the_task_under_a_fresh_id() {
    let (uuid, body) = complete_task_command("123");
    assert_eq!(uuid.len(), 36);
    let expected = format!(
        "{{\"commands\": [{{\"type\": \"item_close\", \"uuid\": \"{uuid}\", \"temp_id\": \"{uuid}\", \"args\": {{\"id\": \"123\"}}}}]}}",
    );
    assert_eq!(body, expected);
    let (other, _) = complete_task_command("123");
    assert_ne!(uuid, other);
}

#[test]
fn completion_command_escapes_the_task_id() {
    let (_, body) = complete_task_command("a\"b\\c");
    assert!(body.contains("{\"id\": \"a\\\"b\\\\c\"}"));
    let (_, body) = complete_task_command("x\ny");
    assert!(body.contains("{\"id\": \"x\\ny\"}"));
    let (_, body) = complete_task_command("z\u{1}");
    assert!(body.contains("{\"id\": \"z\\u0001\"}"));
}

#[test]
fn markdown_is_rendered_for_presentation() {
    let mut t = task("m");
    t.content = "**bold**".to_string();
    t.description = "plain".to_string();
    let out = markdown_to_html(vec![t]);
    assert_eq!(out.len(), 1);
    assert_eq!(out[0].content, "<p><strong>bold</strong></p>\n");
    assert_eq!(out[0].description, "<p>plain</p>\n");
    assert_eq!(out[0].id, "m");
}

#[test]
fn handle_response_splits_on_status() {
    assert_eq!(
        handle_response(200, "GET", "/u", "{}", "payload".to_string()),
        Ok("payload".to_string()),
    );
    let err = handle_response(404, "GET", "/u", "{}", "missing".to_string()).unwrap_err();
    assert_eq!(err.code, 500);
    assert_eq!(err.source, "reqwest");
    assert!(err.message.contains("method: GET"));
    assert!(err.message.contains("url: /u"));
    assert!(err.message.contains("response: missing"));
}

#[test]
fn fetch_parameter_finds_first_match_or_names_the_gap() {
    let params = vec![
        ("filter".to_string(), "#work".to_string()),
        ("token".to_string(), "tk".to_string()),
        ("filter".to_string(), "#other".to_string()),
    ];
    assert_eq!(fetch_parameter(&params, "filter"), Ok("#work".to_string()));
    assert_eq!(fetch_parameter(&params, "token"), Ok("tk".to_string()));
    let err = fetch_parameter(&params, "timezone").unwrap_err();
    assert_eq!(err.code, 400);
    assert_eq!(err.source, "fetch_parameter");
    assert_eq!(err.message, "Missing query parameter: timezone");
}

#[test]
fn environment_names_parse_exactly() {
    assert_eq!(env_from_str("Prod"), Some(Env::Prod));
    assert_eq!(env_from_str("Dev"), Some(Env::Dev));
    assert_eq!(env_from_str("Test"), Some(Env::Test));
    assert_eq!(env_from_str("prod"), None);
    assert!(str_eq("abc", "abc"));
    assert!(!str_eq("abc", "abd"));
}

#[test]
fn cache_key_concatenates_token_and_filter() {
    assert_eq!(make_key("tok", "#filter"), "tok#filter");
}

#[test]
fn navigation_is_fixed() {
    let nav = get_nav();
    assert_eq!(nav.len(), 2);
    assert_eq!(nav[0].href, "/");
    assert_eq!(nav[0].name, "SingleTask");
    assert_eq!(nav[1].href, "/shortcuts");
    assert_eq!(nav[1].name, "Keyboard Shortcuts");
}

#[test]
fn stub_image_is_the_fixed_descriptor() {
    let u = stub();
    assert_eq!(u.user.name, "Adrian Botica");
    assert_eq!(
        u.links.html,
        "https://unsplash.com/photos/a-blurry-photo-of-a-beach-at-sunset-Qn2nubHzL7w",
    );
    assert!(u.urls.full.starts_with("https://images.unsplash.com/photo-1731453171960"));
}

#[test]
fn cached_image_expires_after_a_day() {
    let mut e = UserState {
        tasks: Vec::new(),
        skip_task_ids: Vec::new(),
        tasks_updated_at: None,
        unsplash: None,
        unsplash_updated_at: None,
        timezone: None,
    };
    assert_eq!(cached_unsplash(&e, 0), None);
    e = apply_unsplash_update(e, stub(), 1000);
    assert_eq!(e.unsplash_updated_at, Some(1000));
    assert_eq!(cached_unsplash(&e, 1000 + 1439 * 60), Some(stub()));
    assert_eq!(cached_unsplash(&e, 1000 + 1440 * 60), None);
}

#[test]
fn resolved_timezone_is_cached_on_the_entry() {
    let e = UserState {
        tasks: Vec::new(),
        skip_task_ids: Vec::new(),
        tasks_updated_at: None,
        unsplash: None,
        unsplash_updated_at: None,
        timezone: None,
    };
    assert_eq!(cached_timezone(&e), None);
    let e = apply_timezone_update(e, chrono_tz::Tz::UTC);
    assert_eq!(cached_timezone(&e), Some(chrono_tz::Tz::UTC));
    assert_eq!(user_sync_body(), "{\"resource_types\": [\"user\"], \"sync_token\": \"*\"}");
}

#[test]
fn canned_responses_name_their_files() {
    assert_eq!(ResponseFromFile::Tasks.name(), "Tasks");
    assert_eq!(ResponseFromFile::Sync.path(), "tests/Sync.json");
    assert_eq!(ResponseFromFile::Tasks.path(), "tests/Tasks.json");
}

#[test]
fn error_constructors_carry_their_codes() {
    let e = error::new("src", "msg");
    assert_eq!((e.source.as_str(), e.message.as_str(), e.code), ("src", "msg", 500));
    let e = error::bad_request("src", "msg");
    assert_eq!(e.code, 400);
}
