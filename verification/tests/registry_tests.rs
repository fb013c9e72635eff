use ytdownloader::args::StartDownloadRequest;
use ytdownloader::download::TaskRecord;
use ytdownloader::registry::{
    cancelled_task, clear_task_cancelled, clearable_task_ids, kill_error, retry_request, forget_tasks, history_item, mark_task_cancelled,
    message_cancel_failed, message_no_retry_config, message_task_not_found, newest_first, record_history,
    remove_task_pid, request_language_from_state, store_task_pid, store_task_request, take_task_cancelled,
    take_task_pid, timestamp_label, HistoryItem, KeyedTable, HISTORY_LIMIT,
};

fn request(language: &str) -> StartDownloadRequest {
    StartDownloadRequest {
        url: "https://example.com/v".to_string(),
        title: None,
        mode: "video".to_string(),
        format_id: None,
        output_dir: "/tmp".to_string(),
        playlist_scope: "video".to_string(),
        auth_mode: "none".to_string(),
        browser: None,
        cookie_file: None,
        language: language.to_string(),
    }
}

fn task(id: &str, title: &str) -> TaskRecord {
    TaskRecord {
        id: id.to_string(),
        title: title.to_string(),
        status: "done".to_string(),
        speed: "--".to_string(),
        eta: "00:00".to_string(),
        output: "/tmp/o".to_string(),
        profile: "p".to_string(),
        source_url: "u".to_string(),
        error: None,
    }
}

fn item(title: &str) -> HistoryItem {
    HistoryItem {
        title: title.to_string(),
        finished_at: "2024-01-01 00:00:00".to_string(),
        profile: "p".to_string(),
        output: "o".to_string(),
    }
}

#[test]
fn keyed_table_basics() {
    let mut t: KeyedTable<u32> = KeyedTable::new();
    assert!(!t.contains_key("a"));
    t.insert("a", 1);
    t.insert("b", 2);
    t.insert("a", 3);
    assert_eq!(t.get("a"), Some(&3));
    assert_eq!(t.get("b"), Some(&2));
    assert_eq!(t.get("c"), None);
    assert_eq!(t.remove("a"), Some(3));
    assert_eq!(t.remove("a"), None);
    assert!(!t.contains_key("a"));
    assert!(t.contains_key("b"));
}

#[test]
fn process_ids_are_taken_once() {
    let mut pids: KeyedTable<u32> = KeyedTable::new();
    store_task_pid(&mut pids, "task-1", 4242);
    store_task_pid(&mut pids, "task-2", 7);
    assert_eq!(take_task_pid(&mut pids, "task-1"), Some(4242));
    assert_eq!(take_task_pid(&mut pids, "task-1"), None);
    remove_task_pid(&mut pids, "task-2");
    assert_eq!(take_task_pid(&mut pids, "task-2"), None);
}

#[test]
fn cancellation_marks_are_taken_once() {
    let mut cancelled: KeyedTable<()> = KeyedTable::new();
    assert!(!take_task_cancelled(&mut cancelled, "t"));
    mark_task_cancelled(&mut cancelled, "t");
    mark_task_cancelled(&mut cancelled, "t");
    assert!(take_task_cancelled(&mut cancelled, "t"));
    assert!(!take_task_cancelled(&mut cancelled, "t"));
    mark_task_cancelled(&mut cancelled, "u");
    clear_task_cancelled(&mut cancelled, "u");
    assert!(!take_task_cancelled(&mut cancelled, "u"));
}

#[test]
fn request_language() {
    let mut requests: KeyedTable<StartDownloadRequest> = KeyedTable::new();
    store_task_request(&mut requests, "task-1", &request("en"));
    assert_eq!(request_language_from_state(&requests, "zh-CN", "task-1"), "en");
    assert_eq!(request_language_from_state(&requests, "zh-CN", "task-2"), "zh-CN");
    store_task_request(&mut requests, "task-1", &request("fr"));
    assert_eq!(request_language_from_state(&requests, "en", "task-1"), "fr");
    assert_eq!(requests.get("task-1").map(|r| r.url.as_str()), Some("https://example.com/v"));
}

#[test]
fn clean_up_scopes() {
    let tasks = vec![
        ("t1".to_string(), "done".to_string()),
        ("t2".to_string(), "failed".to_string()),
        ("t3".to_string(), "cancelled".to_string()),
        ("t4".to_string(), "running".to_string()),
        ("t5".to_string(), "done".to_string()),
    ];
    assert_eq!(clearable_task_ids(&tasks, "completed"), Ok(vec!["t1".to_string(), "t5".to_string()]));
    assert_eq!(clearable_task_ids(&tasks, "failed"), Ok(vec!["t2".to_string(), "t3".to_string()]));
    assert_eq!(clearable_task_ids(&tasks, "all").map(|v| v.len()), Ok(5));
    assert_eq!(clearable_task_ids(&tasks, "running"), Err("未知的清理范围".to_string()));
    assert_eq!(clearable_task_ids(&Vec::new(), "bogus"), Err("未知的清理范围".to_string()));
    assert_eq!(clearable_task_ids(&Vec::new(), "all"), Ok(Vec::new()));
}

#[test]
fn forgetting_tasks_removes_their_entries() {
    let mut tasks: KeyedTable<TaskRecord> = KeyedTable::new();
    let mut requests: KeyedTable<StartDownloadRequest> = KeyedTable::new();
    let mut pids: KeyedTable<u32> = KeyedTable::new();
    let mut cancelled: KeyedTable<()> = KeyedTable::new();
    tasks.insert("a", task("a", "A"));
    tasks.insert("b", task("b", "B"));
    store_task_request(&mut requests, "a", &request("en"));
    store_task_request(&mut requests, "b", &request("en"));
    store_task_pid(&mut pids, "a", 1);
    store_task_pid(&mut pids, "c", 3);
    mark_task_cancelled(&mut cancelled, "a");
    mark_task_cancelled(&mut cancelled, "b");
    forget_tasks(&mut tasks, &mut requests, &mut pids, &mut cancelled, &vec!["a".to_string(), "zzz".to_string()]);
    assert!(!tasks.contains_key("a"));
    assert_eq!(tasks.get("b").map(|t| t.title.as_str()), Some("B"));
    assert!(!requests.contains_key("a"));
    assert!(requests.contains_key("b"));
    assert!(!pids.contains_key("a"));
    assert!(pids.contains_key("c"));
    assert!(!cancelled.contains_key("a"));
    assert!(cancelled.contains_key("b"));
}

#[test]
fn history_newest_first_and_bounded() {
    let mut history = Vec::new();
    record_history(&mut history, item("first"));
    record_history(&mut history, item("second"));
    assert_eq!(history.len(), 2);
    assert_eq!(history[0].title, "second");
    assert_eq!(history[1].title, "first");
    for i in 0..250 {
        record_history(&mut history, item(&format!("n{}", i)));
    }
    assert_eq!(history.len(), HISTORY_LIMIT);
    assert_eq!(HISTORY_LIMIT, 200);
    assert_eq!(history[0].title, "n249");
    assert_eq!(history[199].title, "n50");
}

#[test]
fn history_items_copy_the_task() {
    let t = task("task-1", "Clip");
    let h = history_item(&t, "2024-05-06 07:08:09".to_string());
    assert_eq!(h.title, "Clip");
    assert_eq!(h.finished_at, "2024-05-06 07:08:09");
    assert_eq!(h.profile, "p");
    assert_eq!(h.output, "/tmp/o");
}

#[test]
fn task_list_newest_first() {
    let tasks = vec![
        task("task-1700000000002", "b"),
        task("task-1700000000010", "c"),
        task("task-1700000000001", "a"),
        task("task-999", "z"),
    ];
    let sorted = newest_first(tasks);
    let ids: Vec<&str> = sorted.iter().map(|t| t.id.as_str()).collect();
    assert_eq!(ids, vec!["task-999", "task-1700000000010", "task-1700000000002", "task-1700000000001"]);

    let same = vec![task("x", "first"), task("y", "other"), task("x", "second")];
    let sorted = newest_first(same);
    let titles: Vec<&str> = sorted.iter().map(|t| t.title.as_str()).collect();
    assert_eq!(titles, vec!["other", "first", "second"]);
    assert!(newest_first(Vec::new()).is_empty());
}

#[test]
fn timestamp_labels() {
    assert_eq!(timestamp_label(Some(b"2024-05-06 07:08:09\n".to_vec()), Some(5)), "2024-05-06 07:08:09");
    assert_eq!(timestamp_label(Some(b"  \n".to_vec()), Some(1715000000)), "1715000000");
    assert_eq!(timestamp_label(Some(vec![0xff, 0x31]), Some(12)), "12");
    assert_eq!(timestamp_label(None, Some(0)), "0");
    assert_eq!(timestamp_label(None, None), "unknown");
}

#[test]
fn task_messages() {
    assert_eq!(message_no_retry_config("en"), "No retryable task configuration was found");
    assert_eq!(message_no_retry_config("zh"), "未找到可重试的任务配置");
    assert_eq!(message_task_not_found("en"), "Task not found");
    assert_eq!(message_task_not_found("zh"), "未找到任务");
    assert_eq!(message_cancel_failed("en", Some("EPERM")), "Failed to cancel the task: EPERM");
    assert_eq!(message_cancel_failed("zh", Some("EPERM")), "取消任务失败：EPERM");
    assert_eq!(
        message_cancel_failed("en", None),
        "Failed to cancel the task because the download process could not be terminated"
    );
    assert_eq!(message_cancel_failed("zh", None), "取消任务失败，无法终止下载进程");
}

#[test]
fn keyed_table_entries_hold_each_key_once() {
    let mut t: KeyedTable<u32> = KeyedTable::new();
    t.insert("a", 1);
    t.insert("b", 2);
    t.insert("a", 5);
    t.remove("b");
    t.insert("c", 3);
    let mut pairs: Vec<(String, u32)> = t.entries().iter().map(|(k, v)| (k.clone(), *v)).collect();
    pairs.sort();
    assert_eq!(pairs, vec![("a".to_string(), 5), ("c".to_string(), 3)]);
}

#[test]
fn retries_find_the_stored_request() {
    let mut requests: KeyedTable<StartDownloadRequest> = KeyedTable::new();
    store_task_request(&mut requests, "task-1", &request("en"));
    let found = retry_request(&requests, "zh-CN", "task-1").unwrap();
    assert_eq!(found.url, "https://example.com/v");
    assert_eq!(found.language, "en");
    assert_eq!(retry_request(&requests, "en", "task-2").err(), Some("No retryable task configuration was found".to_string()));
    assert_eq!(retry_request(&requests, "zh-CN", "task-2").err(), Some("未找到可重试的任务配置".to_string()));
}

#[test]
fn cancellation_outcomes() {
    assert_eq!(kill_error("en", Ok(true)), None);
    assert_eq!(
        kill_error("en", Ok(false)),
        Some("Failed to cancel the task because the download process could not be terminated".to_string())
    );
    assert_eq!(kill_error("zh", Err("No such process".to_string())), Some("取消任务失败：No such process".to_string()));

    let t = cancelled_task(Some(task("task-1", "Clip")), "en").unwrap();
    assert_eq!(t.status, "cancelled");
    assert_eq!(t.error, None);
    assert_eq!(t.title, "Clip");
    assert_eq!(cancelled_task(None, "en").err(), Some("Task not found".to_string()));
    assert_eq!(cancelled_task(None, "zh").err(), Some("未找到任务".to_string()));
}
