use backup_client::clock::Instant;
use backup_client::i18n::{Catalog, Translator};
use backup_client::json::{Json, JsonNumber};
use backup_client::models::{Connection, Task, TaskRun, enabled_tasks};
use backup_client::task_params::{params_summary, ignore_patterns_display, encrypt_display, merge_encrypt_flag, read_encrypt_flag, TaskDataError, batch_limit, first_sync_days, split_list, BatchNotice, db_dump_data, db_dump_defaults, dir_sync_data, files_archive_data, sqlite_data};
use backup_client::protocol::{classify_server_message, ServerEvent, is_app_ping, no_changes_key, queued_message_key, resolve_task_from_filename, successful_run_outcome, task_name_for_def, read_error, wait_step, WaitError, WaitStep, manual_run_step, reset_step, ManualStep, ResetStep, auth_message, check_download_message, run_task_message, sync_tasks_message, PONG};
use backup_client::monitor::{connection_activity, count_cell, count_ok, last_size, last_status, sum_stats, truncate, Activity, SizeCell, StatusCell, TaskRow, TaskRunStats};

fn s(x: &str) -> String {
    x.to_string()
}

fn obj(members: Vec<(&str, Json)>) -> Json {
    Json::Object(members.into_iter().map(|(k, v)| (s(k), v)).collect())
}

fn text(x: &str) -> Json {
    Json::Str(s(x))
}

fn num(n: u64) -> Json {
    Json::Number(JsonNumber { as_i64: Some(n as i64), as_u64: Some(n), text: n.to_string() })
}

fn task(id: &str, name: &str, task_type: &str) -> Task {
    Task {
        id: s(id),
        connection_id: s("conn_1"),
        task_name: s(name),
        task_type: s(task_type),
        data_json: s("{}"),
        schedule: s("0 8 * * *"),
        enabled: true,
        last_run: None,
        created_at: Instant { secs: 0, nanos: 0 },
    }
}

fn connection() -> Connection {
    Connection {
        id: s("conn_1"),
        slug: s("prod"),
        url: s("wss://10.0.0.5:9443/ws"),
        api_key: s(""),
        tls_enabled: true,
        cert_fingerprint: Some(s("AB12")),
        enabled: true,
        created_at: s("2026-01-01T00:00:00Z"),
        secrets_mode: s("test"),
        retention_days: 7,
        retention_last_run: None,
    }
}

fn translator() -> Translator {
    Translator::with_catalogs(vec![Catalog {
        lang: s("en"),
        entries: vec![
            (s("task.params_em_dash"), s("—")),
            (s("task.params_path"), s("path={path} ignore={ignore}")),
            (s("task.params_dir_sync"), s("{path} {days}d {batch}MB")),
            (s("encrypt.on"), s("on")),
            (s("encrypt.off"), s("off")),
            (s("encrypt.na"), s("n/a")),
            (s("retention.never"), s("Never")),
            (s("retention.days_7"), s("7 days")),
            (s("retention.custom"), s("Custom")),
            (s("retention.option_never"), s("Never delete")),
            (s("retention.option_days"), s("Delete after {label}")),
            (s("scheduler.retry"), s("[{slug}] {name} {attempt}/{max}: {detail}; retry in {sec}s")),
            (s("scheduler.skipped"), s("[{slug}] {name} skipped after {max}: {detail}")),
            (s("task.edit_params"), s("Edit parameters")),
            (s("task.edit_params_summary"), s("Edit parameters ({summary})")),
        ],
    }])
}

#[test]
fn json_lookup_reads_members() {
    let v = obj(vec![("a", text("x")), ("n", num(5)), ("b", Json::Bool(true))]);
    assert_eq!(v.str_field("a"), Some("x"));
    assert_eq!(v.u64_field("n"), Some(5));
    assert_eq!(v.i64_field("n"), Some(5));
    assert_eq!(v.bool_field("b"), Some(true));
    assert_eq!(v.str_field("n"), None);
    assert!(v.get("missing").is_none());
    assert!(Json::Array(vec![]).get("a").is_none());
}

#[test]
fn params_summary_of_archive_and_dir_sync() {
    let tr = translator();
    let archive = obj(vec![
        ("source", text("/srv/www")),
        ("ignore", Json::Array(vec![text("*.log"), text(""), num(3), text("tmp")])),
    ]);
    assert_eq!(params_summary(&tr, "file_archive", Some(&archive)), "path=/srv/www ignore=*.log, tmp");
    let sync = obj(vec![("source_path", text("/data")), ("first_sync_days", num(3))]);
    assert_eq!(params_summary(&tr, "dir_sync", Some(&sync)), "/data 3d 200MB");
    assert_eq!(params_summary(&tr, "dir_sync", None), "");
    assert_eq!(params_summary(&tr, "shell", Some(&sync)), "");
    let empty_path = obj(vec![("source_path", text(""))]);
    assert_eq!(params_summary(&tr, "files_archive", Some(&empty_path)), "path=— ignore=—");
}

#[test]
fn ignore_patterns_display_forms() {
    let tr = translator();
    assert_eq!(ignore_patterns_display(&tr, &obj(vec![("ignore", text("node_modules"))])), "node_modules");
    assert_eq!(ignore_patterns_display(&tr, &obj(vec![("ignore", Json::Array(vec![]))])), "—");
    assert_eq!(ignore_patterns_display(&tr, &obj(vec![])), "—");
}

#[test]
fn encryption_flag_read_and_merged() {
    let tr = translator();
    let data = obj(vec![("db_name", text("shop")), ("encrypt", Json::Bool(true))]);
    assert!(read_encrypt_flag(Some(&data)));
    assert!(!read_encrypt_flag(None));
    assert_eq!(encrypt_display(&tr, "mysql_dump", Some(&data)), "on");
    assert_eq!(encrypt_display(&tr, "dir_sync", Some(&data)), "n/a");
    assert_eq!(encrypt_display(&tr, "sqlite_dump", None), "off");

    let merged = merge_encrypt_flag("mysql_dump", data, false).unwrap();
    assert_eq!(merged.bool_field("encrypt"), Some(false));
    assert_eq!(merged.str_field("db_name"), Some("shop"));
    let fresh = merge_encrypt_flag("dir_sync", obj(vec![("source_path", text("/x"))]), true).unwrap();
    assert_eq!(fresh.bool_field("encrypt"), Some(false));
    assert_eq!(fresh.str_field("source_path"), Some("/x"));
    let added = merge_encrypt_flag("shell", obj(vec![]), true).unwrap();
    assert_eq!(added.bool_field("encrypt"), Some(true));
    let err = merge_encrypt_flag("shell", Json::Array(vec![]), true).unwrap_err();
    assert_eq!(err, TaskDataError::NotObject);
    assert_eq!(err.message(), "Task data must be a JSON object");
}

#[test]
fn entered_lists_and_numbers() {
    assert_eq!(split_list(" a, b ,,c "), vec![s("a"), s("b"), s("c")]);
    assert_eq!(split_list(""), Vec::<String>::new());
    assert_eq!(split_list(",,"), Vec::<String>::new());
    assert_eq!(batch_limit("300"), (300, BatchNotice::Large));
    assert_eq!(batch_limit("900"), (500, BatchNotice::Capped));
    assert_eq!(batch_limit("0"), (1, BatchNotice::Plain));
    assert_eq!(batch_limit("abc"), (200, BatchNotice::Plain));
    assert_eq!(batch_limit("+150"), (150, BatchNotice::Plain));
    assert_eq!(first_sync_days("14"), 14);
    assert_eq!(first_sync_days("x"), 0);
}

#[test]
fn task_data_objects() {
    let d = db_dump_data("postgresql_dump", "shop", "app", "pw", "localhost", 5432);
    assert_eq!(d.str_field("provider"), Some("postgresql"));
    assert_eq!(d.u64_field("db_port"), Some(5432));
    assert_eq!(db_dump_data("mysql_dump", "a", "b", "c", "h", 1).str_field("provider"), Some("mysql"));
    assert_eq!(db_dump_defaults("postgresql_dump"), ("localhost", "5432"));
    assert_eq!(db_dump_defaults("mysql_dump"), ("127.0.0.1", "3306"));
    assert_eq!(sqlite_data("/var/app.db").str_field("db_path"), Some("/var/app.db"));
    let f = files_archive_data("/srv", &vec![s("*.tmp")]);
    match f.get("ignore") {
        Some(Json::Array(items)) => assert_eq!(items.len(), 1),
        _ => panic!("ignore must be an array"),
    }
    let ds = dir_sync_data("/data", 7, 250);
    assert_eq!(ds.u64_field("first_sync_days"), Some(7));
    assert_eq!(ds.u64_field("max_batch_mb"), Some(250));
}

#[test]
fn server_messages_are_classified() {
    let pong = obj(vec![("type", text("pong")), ("status", text("authenticated"))]);
    assert!(matches!(classify_server_message(&pong), ServerEvent::Authenticated));
    let bare_pong = obj(vec![("type", text("pong"))]);
    match classify_server_message(&bare_pong) {
        ServerEvent::Unhandled { msg_type } => assert_eq!(msg_type, "pong"),
        other => panic!("{other:?}"),
    }
    let queued = obj(vec![("type", text("task_queued")), ("task_id", text("r1")), ("def_id", text("t1"))]);
    match classify_server_message(&queued) {
        ServerEvent::TaskQueued { run_id, queue_position, def_id } => {
            assert_eq!(run_id, "r1");
            assert_eq!(queue_position, 1);
            assert_eq!(def_id.as_deref(), Some("t1"));
        }
        other => panic!("{other:?}"),
    }
    let done = obj(vec![
        ("type", text("task_completed")),
        ("status", text("success")),
        ("download_url", text("https://h/files/backup_db_mysql_1.zip")),
    ]);
    match classify_server_message(&done) {
        ServerEvent::Completed { run_id, download_url, file_hash, def_id } => {
            assert_eq!(run_id, "?");
            assert_eq!(download_url, "https://h/files/backup_db_mysql_1.zip");
            assert_eq!(file_hash, "");
            assert!(def_id.is_none());
        }
        other => panic!("{other:?}"),
    }
    let same = obj(vec![("type", text("task_completed")), ("status", text("no_changes")), ("detail", text("empty"))]);
    assert!(matches!(classify_server_message(&same), ServerEvent::NoChanges { .. }));
    let odd = obj(vec![("type", text("task_completed")), ("status", text("cancelled"))]);
    assert!(matches!(classify_server_message(&odd), ServerEvent::NotSuccessful { .. }));
    let failed = obj(vec![("type", text("task_failed")), ("task_id", text("r2"))]);
    match classify_server_message(&failed) {
        ServerEvent::Failed { run_id, error, def_id } => {
            assert_eq!(run_id, "r2");
            assert_eq!(error, "unknown error");
            assert_eq!(def_id, "");
        }
        other => panic!("{other:?}"),
    }
    let sync = obj(vec![("type", text("sync_ok")), ("count", num(4))]);
    assert!(matches!(classify_server_message(&sync), ServerEvent::SyncOk { count: 4 }));
    let err = obj(vec![("type", text("error")), ("message", text("bad"))]);
    assert!(matches!(classify_server_message(&err), ServerEvent::ServerError { .. }));
    assert!(matches!(classify_server_message(&obj(vec![("type", text("ping"))])), ServerEvent::Ping));
    assert!(matches!(
        classify_server_message(&obj(vec![("type", text("dir_sync_reset_ok"))])),
        ServerEvent::DirSyncResetOk
    ));
}

#[test]
fn message_keys_and_pings() {
    assert!(is_app_ping(Some(&obj(vec![("type", text("ping"))]))));
    assert!(!is_app_ping(Some(&obj(vec![("type", text("pong"))]))));
    assert!(!is_app_ping(None));
    assert_eq!(no_changes_key("empty"), "task.dir_sync_empty_source");
    assert_eq!(no_changes_key("up_to_date"), "task.dir_sync_up_to_date");
    assert_eq!(no_changes_key("other"), "task.dir_sync_no_changes");
    assert_eq!(queued_message_key(3), "protocol.task_queued_position");
    assert_eq!(queued_message_key(1), "protocol.task_queued");
}

#[test]
fn files_are_matched_to_tasks() {
    let tasks = vec![
        (task("t1", "shop", "mysql_dump"), None),
        (task("t2", "photos", "dir_sync"), None),
        (task("t3", "report", "shell"), Some(obj(vec![("script_name", text("nightly.sh"))]))),
        (task("t4", "cleanup", "shell"), Some(obj(vec![("script", text("purge.sh.sh"))]))),
    ];
    let hit = resolve_task_from_filename(&tasks, "backup_shop_mysql_2026-01-01_0800.zip").unwrap();
    assert_eq!(hit.task_id, "t1");
    assert_eq!(hit.task_type, "mysql_dump");
    assert_eq!(resolve_task_from_filename(&tasks, "sync_photos_2026-01-01_080000.zip").unwrap().task_id, "t2");
    assert_eq!(resolve_task_from_filename(&tasks, "x_nightly_output.txt").unwrap().task_id, "t3");
    assert_eq!(resolve_task_from_filename(&tasks, "x_purge_output.txt").unwrap().task_id, "t4");
    assert!(resolve_task_from_filename(&tasks, "backup_other_files_1.zip").is_none());
    let one_shell = vec![(task("t9", "only", "shell"), None)];
    assert_eq!(resolve_task_from_filename(&one_shell, "anything_output.txt").unwrap().task_id, "t9");
}

#[test]
fn run_outcome_flags() {
    let ok = successful_run_outcome("mysql_dump", 50_000, false);
    assert_eq!(ok.status, "ok");
    assert!(ok.anomaly_flags.is_none());
    let warn = successful_run_outcome("mysql_dump", 10, true);
    assert_eq!(warn.status, "warn");
    assert_eq!(warn.anomaly_flags.as_deref(), Some("tiny_file,size_drop"));
    assert_eq!(successful_run_outcome("shell", 1, true).status, "ok");
}

#[test]
fn failed_task_names() {
    let t = task("t1", "shop", "mysql_dump");
    assert_eq!(task_name_for_def("", Some(&t)), "?");
    assert_eq!(task_name_for_def("t1", Some(&t)), "shop");
    assert_eq!(task_name_for_def("t7", None), "t7");
}

#[test]
fn waiting_for_a_reply() {
    assert!(matches!(wait_step(&obj(vec![("type", text("ping"))]), "pong"), WaitStep::ReplyPong));
    assert!(matches!(wait_step(&obj(vec![("type", text("sync_ok"))]), "sync_ok"), WaitStep::Accept));
    match wait_step(&obj(vec![("type", text("error")), ("message", text("Device not authorized: x"))]), "pong") {
        WaitStep::Fail(e) => assert_eq!(e.message(), "Device auth denied: Device not authorized: x"),
        other => panic!("{other:?}"),
    }
    match wait_step(&obj(vec![("type", text("error"))]), "pong") {
        WaitStep::Fail(e) => assert_eq!(e.message(), "Server error: unknown error"),
        other => panic!("{other:?}"),
    }
    assert!(matches!(wait_step(&obj(vec![("type", text("task_queued"))]), "pong"), WaitStep::Forward));
    assert_eq!(read_error("IO error: peer sent close_notify"), WaitError::ClosedByServer);
    assert_eq!(read_error("boom").message(), "WebSocket error: boom");
    assert_eq!(
        WaitError::Timeout { expected: s("pong") }.message(),
        "Timeout waiting for server message: pong"
    );
}

#[test]
fn manual_run_and_reset_frames() {
    assert_eq!(manual_run_step(r#"{"type":"task_failed"}"#), ManualStep::Failed);
    assert_eq!(manual_run_step(r#"{"type":"task_completed"}"#), ManualStep::HandleThenDone);
    assert_eq!(manual_run_step(r#"{"type":"task_queued"}"#), ManualStep::HandleAndWait);
    assert_eq!(reset_step(r#"{"type":"dir_sync_reset_ok"}"#), ResetStep::Done);
    assert_eq!(reset_step(r#"{"type":"error","message":"no"}"#), ResetStep::Refused);
    assert_eq!(reset_step(r#"{"type":"ping"}"#), ResetStep::HandleAndWait);
}

#[test]
fn outgoing_messages() {
    let m = check_download_message("a.zip");
    assert_eq!(m.str_field("type"), Some("check_download"));
    assert_eq!(m.str_field("filename"), Some("a.zip"));
    assert_eq!(run_task_message("t1").str_field("def_id"), Some("t1"));
    assert_eq!(auth_message("abc").str_field("device_id"), Some("abc"));
    assert_eq!(PONG, r#"{"type":"pong"}"#);
    let sync = sync_tasks_message(vec![
        (task("t1", "a", "file_archive"), Some(obj(vec![]))),
        (task("t2", "b", "shell"), None),
    ]);
    match sync.get("tasks") {
        Some(Json::Array(items)) => {
            assert_eq!(items.len(), 1);
            assert_eq!(items[0].str_field("task_type"), Some("files_archive"));
            assert_eq!(items[0].str_field("def_id"), Some("t1"));
        }
        _ => panic!("tasks must be an array"),
    }
}

#[test]
fn enabled_tasks_keep_order() {
    let mut off = task("t2", "b", "shell");
    off.enabled = false;
    let kept = enabled_tasks(&vec![task("t1", "a", "shell"), off, task("t3", "c", "shell")]);
    let ids: Vec<&str> = kept.iter().map(|t| t.id.as_str()).collect();
    assert_eq!(ids, vec!["t1", "t3"]);
}

#[test]
fn monitor_cells() {
    let run = |status: &str, size: Option<i64>, at: i64| TaskRun {
        id: 1,
        task_id: s("t"),
        run_at: Instant { secs: at, nanos: 0 },
        status: s(status),
        file_size_bytes: size,
        file_path: None,
        error: Some(s("connection refused")),
        anomaly_flags: None,
        server_run_id: None,
    };
    let rows = vec![
        TaskRow { task: task("t1", "a", "dir_sync"), last_run: Some(run("ok", Some(0), 1000)), last_download_bytes: None, stats: TaskRunStats { fail_count: 2, warn_count: 0 } },
        TaskRow { task: task("t2", "b", "mysql_dump"), last_run: Some(run("fail", None, 4000)), last_download_bytes: None, stats: TaskRunStats { fail_count: 1, warn_count: 3 } },
        TaskRow { task: task("t3", "c", "shell"), last_run: None, last_download_bytes: None, stats: TaskRunStats { fail_count: 0, warn_count: 0 } },
    ];
    assert_eq!(count_ok(&rows), (1, 3));
    assert_eq!(sum_stats(&rows), (3, 3));
    assert_eq!(count_cell(0), "—");
    assert_eq!(count_cell(-12), "-12");
    assert_eq!(truncate("connection refused", 8), "connect…");
    assert_eq!(truncate("short", 8), "short");
    assert!(matches!(last_status(&rows[0].last_run, "dir_sync"), StatusCell::Pass));
    match last_status(&rows[1].last_run, "mysql_dump") {
        StatusCell::Fail(t) => assert_eq!(t, "connect…"),
        other => panic!("{other:?}"),
    }
    assert!(matches!(last_status(&None, "shell"), StatusCell::NoRun));
    assert_eq!(last_size(&rows[0].last_run, None, "dir_sync"), SizeCell::ZeroBytes);
    assert_eq!(last_size(&rows[0].last_run, Some(77), "dir_sync"), SizeCell::Bytes(77));
    assert_eq!(last_size(&rows[1].last_run, None, "mysql_dump"), SizeCell::Dash);
    assert_eq!(connection_activity(&rows, Instant { secs: 4000 + 60, nanos: 0 }), Activity::Recent);
    assert_eq!(connection_activity(&rows, Instant { secs: 4000 + 1800, nanos: 0 }), Activity::Idle);
    assert_eq!(connection_activity(&rows, Instant { secs: 10, nanos: 0 }), Activity::Idle);
    let idle_rows = vec![TaskRow {
        task: task("t3", "c", "shell"),
        last_run: None,
        last_download_bytes: None,
        stats: TaskRunStats { fail_count: 0, warn_count: 0 },
    }];
    assert_eq!(connection_activity(&idle_rows, Instant { secs: 0, nanos: 0 }), Activity::NoRuns);
    assert_eq!(Activity::NoRuns.label(), "NO RUNS");
}

#[test]
fn connection_is_cloned_whole() {
    let c = connection();
    let d = c.clone();
    assert_eq!(d.url, c.url);
    assert_eq!(d.cert_fingerprint, c.cert_fingerprint);
}
