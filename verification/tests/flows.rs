use backup_client::cron::{task_due_within, NextRunError};
use backup_client::browse::sort_by_name;
use backup_client::clock::{days_between, parse_rfc3339, seconds_between, Instant};
use backup_client::i18n::{Catalog, Translator};
use backup_client::models::{Connection, Task};
use backup_client::retention::{cooldown_elapsed_at, run_age_days_at, retention_gate, RetentionGate, plan_retention, RetentionDecision, RetentionRunRow, retention_label, RETENTION_OPTIONS};
use backup_client::menu::{retention_option_index, retention_option_label, connection_menu_choice, encrypt_after_type_change, main_menu_choice, settings_choice, task_menu_actions, toggled_secrets_mode, ConnectionChoice, EncryptChoice, MainChoice, SettingsChoice, TaskChoice};
use backup_client::scheduler::{submit_next, SubmitAction, SubmitOutcome, SUBMIT_MAX_ATTEMPTS, cron_expression, retry_message, skipped_message};
use backup_client::run_tracker::{pending_from_task, RunTracker};
use backup_client::session::{PendingBook, PendingWork, idle_decision, IdleDecision, recovery_next, RecoveryEvent as E, RecoveryState as S};
use backup_client::download::{check_pinned_certificate, classify_tls_error, compute_sha256, download_verdict, normalize_download_url, pinned_fingerprint, skips_hash_check, tls_error_message, DownloadVerdict, TlsFailure};
use backup_client::dir_sync::latest_sync_archive;
use backup_client::config::DecryptConfig;
use backup_client::decrypt_flow::{password_choices, DecryptAttempts, PasswordChoice, PasswordSource, config_file_content};

fn s(x: &str) -> String {
    x.to_string()
}

fn at(secs: i64) -> Instant {
    Instant { secs, nanos: 0 }
}

fn task(id: &str, name: &str) -> Task {
    Task {
        id: s(id),
        connection_id: s("c1"),
        task_name: s(name),
        task_type: s("mysql_dump"),
        data_json: s("{}"),
        schedule: s("*/120"),
        enabled: true,
        last_run: None,
        created_at: at(0),
    }
}

fn conn(url: &str) -> Connection {
    Connection {
        id: s("c1"),
        slug: s("prod"),
        url: s(url),
        api_key: s(""),
        tls_enabled: true,
        cert_fingerprint: Some(s("")),
        enabled: true,
        created_at: s(""),
        secrets_mode: s("production"),
        retention_days: 30,
        retention_last_run: None,
    }
}

fn translator(entries: &[(&str, &str)]) -> Translator {
    Translator::with_catalogs(vec![Catalog {
        lang: s("en"),
        entries: entries.iter().map(|(k, v)| (s(k), s(v))).collect(),
    }])
}

#[test]
fn rfc3339_times_are_read_with_chrono() {
    assert_eq!(parse_rfc3339("1970-01-01T00:00:10Z"), Some(at(10)));
    assert_eq!(
        parse_rfc3339("2026-07-04T22:05:00.5+02:00"),
        Some(Instant { secs: 1_783_195_500, nanos: 500_000_000 })
    );
    assert_eq!(parse_rfc3339("yesterday"), None);
}

#[test]
fn whole_seconds_and_days_round_toward_zero() {
    assert_eq!(seconds_between(Instant { secs: 10, nanos: 0 }, Instant { secs: 8, nanos: 500_000_000 }), 1);
    assert_eq!(seconds_between(Instant { secs: 8, nanos: 500_000_000 }, at(10)), -1);
    assert_eq!(days_between(at(86_400 * 3 + 5), at(0)), 3);
    assert_eq!(days_between(at(0), at(86_400 + 1)), -1);
}

#[test]
fn retention_cooldown_and_age() {
    let now = parse_rfc3339("2026-03-02T12:00:00Z").unwrap();
    assert!(cooldown_elapsed_at(None, now));
    assert!(cooldown_elapsed_at(Some("garbage"), now));
    assert!(cooldown_elapsed_at(Some("2026-03-01T12:00:00Z"), now));
    assert!(!cooldown_elapsed_at(Some("2026-03-01T12:00:01Z"), now));
    assert_eq!(run_age_days_at("2026-02-20T12:00:00Z", now), Some(10));
    assert_eq!(run_age_days_at("2026-03-05T12:00:00Z", now), Some(-3));
    assert_eq!(run_age_days_at("n/a", now), None);
}

#[test]
fn retention_gate_order() {
    let now = parse_rfc3339("2026-03-02T12:00:00Z").unwrap();
    let mut c = conn("wss://h/ws");
    assert_eq!(retention_gate(&c, now), RetentionGate::Run);
    c.retention_last_run = Some(s("2026-03-02T08:00:00Z"));
    assert_eq!(retention_gate(&c, now), RetentionGate::CoolingDown);
    c.retention_days = 0;
    assert_eq!(retention_gate(&c, now), RetentionGate::NeverDelete);
    c.enabled = false;
    assert_eq!(retention_gate(&c, now), RetentionGate::ConnectionDisabled);
}

#[test]
fn retention_keeps_the_latest_file_of_each_task() {
    let row = |id: i64, task_id: &str, task_type: &str, run_at: &str| RetentionRunRow {
        id,
        task_id: s(task_id),
        task_name: s(task_id),
        task_type: s(task_type),
        run_at: s(run_at),
        file_path: format!("/b/{id}.zip"),
    };
    let rows = vec![
        row(1, "a", "mysql_dump", "2026-02-01T00:00:00Z"),
        row(2, "a", "mysql_dump", "2026-01-01T00:00:00Z"),
        row(3, "a", "mysql_dump", "bad time"),
        row(4, "a", "mysql_dump", "2026-02-28T00:00:00Z"),
        row(5, "b", "dir_sync", "2025-01-01T00:00:00Z"),
        row(6, "c", "files_archive", "2025-01-01T00:00:00Z"),
    ];
    let now = parse_rfc3339("2026-03-02T00:00:00Z").unwrap();
    let plan = plan_retention(&rows, 30, now);
    assert_eq!(
        plan,
        vec![
            RetentionDecision::KeepLatest { only_and_old: false },
            RetentionDecision::Delete { age: 60 },
            RetentionDecision::SkipUnreadableTime,
            RetentionDecision::KeepYoung { age: 2 },
            RetentionDecision::SkipDirSync,
            RetentionDecision::KeepLatest { only_and_old: true },
        ]
    );
}

#[test]
fn retention_labels() {
    let tr = translator(&[
        ("retention.never", "Never"),
        ("retention.days_30", "30 days"),
        ("retention.custom", "Custom"),
        ("retention.option_never", "Never delete"),
        ("retention.option_days", "Delete after {label}"),
    ]);
    assert_eq!(retention_label(&tr, 30), "30 days");
    assert_eq!(retention_label(&tr, 45), "Custom");
    assert_eq!(retention_option_label(&tr, 0), "Never delete");
    assert_eq!(retention_option_label(&tr, 30), "Delete after 30 days");
    assert_eq!(RETENTION_OPTIONS, [0, 7, 14, 30, 60]);
    assert_eq!(retention_option_index(14), 2);
    assert_eq!(retention_option_index(45), 0);
}

#[test]
fn scheduled_submission_retries_twice_then_skips() {
    assert_eq!(submit_next(1, SubmitOutcome::ConnectFailed), SubmitAction::Retry { next_attempt: 2 });
    assert_eq!(submit_next(2, SubmitOutcome::SubmitFailed), SubmitAction::Retry { next_attempt: 3 });
    assert_eq!(submit_next(SUBMIT_MAX_ATTEMPTS, SubmitOutcome::SubmitFailed), SubmitAction::Skip);
    assert_eq!(submit_next(3, SubmitOutcome::Accepted), SubmitAction::Register);
}

#[test]
fn scheduler_texts_and_cron() {
    let tr = translator(&[
        ("scheduler.retry", "[{slug}] {name} {attempt}/{max}: {detail}; retry in {sec}s"),
        ("scheduler.skipped", "[{slug}] {name} skipped after {max}: {detail}"),
    ]);
    assert_eq!(retry_message(&tr, "prod", "db", 1, "refused"), "[prod] db 1/3: refused; retry in 60s");
    assert_eq!(skipped_message(&tr, "prod", "db", "refused"), "[prod] db skipped after 3: refused");
    assert_eq!(cron_expression(&task("t", "db")).unwrap(), "0 0 */2 * * *");
}

#[test]
fn run_tracker_is_first_in_first_out() {
    let mut tr = RunTracker::new();
    tr.register_legacy_pending("wss://h/ws", pending_from_task(&task("t1", "a")));
    tr.register_legacy_pending("wss://h/ws", pending_from_task(&task("t2", "b")));
    tr.on_task_queued_legacy("wss://h/ws", "run-1");
    tr.on_task_queued_legacy("wss://h/ws", "run-2");
    tr.on_task_queued_legacy("wss://h/ws", "run-3");
    assert_eq!(tr.take_by_run_id("run-1").unwrap().task_id, "t1");
    assert_eq!(tr.take_by_run_id("run-2").unwrap().task_id, "t2");
    assert!(tr.take_by_run_id("run-3").is_none());
    tr.map_run("run-9", pending_from_task(&task("t5", "e")));
    assert_eq!(tr.take_by_run_id("run-9").unwrap().task_id, "t5");
    assert!(tr.take_by_run_id("run-9").is_none());
}

#[test]
fn pending_book_tracks_runs_per_url() {
    let mut book = PendingBook::new();
    book.register(PendingWork { conn: conn("wss://a/ws"), task: task("t1", "one") });
    book.register(PendingWork { conn: conn("wss://a/ws"), task: task("t2", "two") });
    book.register(PendingWork { conn: conn("wss://b/ws"), task: task("t3", "three") });
    assert!(book.has_any("wss://a/ws"));
    assert_eq!(book.snapshot("wss://a/ws").len(), 2);
    let mut names = book.task_names("wss://a/ws");
    names.sort();
    assert_eq!(names, vec![s("one"), s("two")]);
    assert_eq!(book.remove("wss://a/ws", "t1").unwrap().task.task_name, "one");
    assert!(book.remove("wss://a/ws", "t1").is_none());
    assert!(book.remove("wss://z/ws", "t1").is_none());
    let cleared = book.clear_url("wss://a/ws");
    assert_eq!(cleared.len(), 1);
    assert!(!book.has_any("wss://a/ws"));
    assert!(book.has_any("wss://b/ws"));
}

#[test]
fn idle_sessions() {
    assert_eq!(idle_decision(1, false, false, Some(false)), IdleDecision::Busy);
    assert_eq!(idle_decision(0, false, true, Some(false)), IdleDecision::Busy);
    assert_eq!(idle_decision(0, false, false, Some(true)), IdleDecision::Hold);
    assert_eq!(idle_decision(0, false, false, Some(false)), IdleDecision::Disconnect);
    assert_eq!(idle_decision(0, false, false, None), IdleDecision::Unknown);
}

#[test]
fn recovery_gives_up_after_three_cycles() {
    let mut state = S::CheckPending { cycle: 1 };
    let mut steps = 0;
    let mut slept = 0u64;
    loop {
        let event = match state {
            S::CheckPending { .. } => E::Pending,
            S::Reconnect { .. } => E::ConnectFailed,
            S::AwaitSettlement { .. } => E::NotSettled,
            S::Resubmit { .. } => E::Resubmitted,
            S::GiveUp => E::GaveUp,
            S::Done => break,
        };
        let step = recovery_next(state, event);
        slept += step.sleep_secs;
        state = step.next;
        steps += 1;
        assert!(steps < 40);
    }
    assert_eq!(steps, 3 * 7 + 1);
    assert_eq!(slept, 3 * (5 * 5 + 10));
}

#[test]
fn recovery_ends_when_runs_settle() {
    let s1 = recovery_next(S::CheckPending { cycle: 2 }, E::Pending).next;
    assert_eq!(s1, S::Reconnect { cycle: 2, attempt: 1 });
    let s2 = recovery_next(s1, E::Connected).next;
    assert_eq!(s2, S::AwaitSettlement { cycle: 2 });
    assert_eq!(recovery_next(s2, E::Settled).next, S::Done);
    assert_eq!(recovery_next(S::Resubmit { cycle: 3 }, E::Resubmitted).next, S::GiveUp);
    assert_eq!(recovery_next(S::CheckPending { cycle: 3 }, E::NothingPending).next, S::Done);
    assert_eq!(recovery_next(S::Done, E::Pending).next, S::Done);
}

#[test]
fn download_checks() {
    let c = conn("wss://h/ws");
    assert_eq!(normalize_download_url(&c, "http://h/f/http://x"), "https://h/f/https://x");
    assert_eq!(
        compute_sha256(b"abc"),
        "ba7816bf8f01cfea414140de5dae2223b00361a396177a9cb410ff61f20015ad"
    );
    assert!(skips_hash_check(""));
    assert!(skips_hash_check("unknown"));
    assert!(!skips_hash_check("ab"));
    assert_eq!(download_verdict(1, "f.zip", "aa", "aa"), DownloadVerdict::Accept);
    assert_eq!(download_verdict(1, "f.zip", "aa", "bb"), DownloadVerdict::Retry { bad_name: s("f.zip_bad1") });
    assert_eq!(download_verdict(3, "f.zip", "aa", "bb"), DownloadVerdict::Fail { bad_name: s("f.zip_bad3") });
    assert_eq!(classify_tls_error("invalid peer certificate: Expired"), TlsFailure::Other);
    assert_eq!(classify_tls_error("certificate expired"), TlsFailure::CertificateExpired);
    assert_eq!(classify_tls_error("Certificate fingerprint mismatch (x)"), TlsFailure::FingerprintMismatch);
    assert_eq!(tls_error_message("prod", "boom"), "[prod] TLS/WebSocket error: boom");
    assert_eq!(
        tls_error_message("prod", "fingerprint mismatch"),
        "[prod] TLS certificate fingerprint mismatch — renew certificate (data/ca/prod)"
    );
    assert_eq!(pinned_fingerprint(&c).unwrap_err(), "TLS enabled but cert_fingerprint is missing");
    let pinned = "BA7816BF8F01CFEA414140DE5DAE2223B00361A396177A9CB410FF61F20015AD";
    assert_eq!(check_pinned_certificate(pinned, b"abc"), Ok(()));
    assert_eq!(
        check_pinned_certificate("00", b"abc").unwrap_err(),
        "Certificate fingerprint mismatch (expected 00, got ba7816bf8f01cfea414140de5dae2223b00361a396177a9cb410ff61f20015ad)"
    );
}

#[test]
fn latest_archive_on_disk() {
    let names = vec![
        s("backup_photos_sync_2026-01-02_0800.zip"),
        s("sync_photos_2026-03-01_080000.zip"),
        s("backup_photos_sync_2026-02-01_0800.zip"),
        s("backup_photos_sync_2027-01-01_0800.txt"),
        s("backup_other_sync_2030-01-01_0800.zip"),
    ];
    assert_eq!(latest_sync_archive(&names, "photos"), Some(s("sync_photos_2026-03-01_080000.zip")));
    assert_eq!(latest_sync_archive(&names, "missing"), None);
}

#[test]
fn decrypting_tries_the_folder_connection_first() {
    let mut cfg = DecryptConfig::empty();
    cfg.set_profile_password("alpha", s("pa"));
    cfg.set_profile_password("beta", s("pb"));
    let mut tries = DecryptAttempts::new();
    match tries.password_source(&cfg, Some("beta")) {
        PasswordSource::Auto { password, announce } => {
            assert_eq!(password, "pb");
            assert_eq!(announce.as_deref(), Some("beta"));
        }
        other => panic!("{other:?}"),
    }
    assert!(matches!(tries.password_source(&cfg, None), PasswordSource::Ask));
    assert!(tries.after_wrong_password(&cfg, Some("beta")));
    assert_eq!(tries.tried, vec![s("beta")]);
    assert!(matches!(tries.password_source(&cfg, Some("beta")), PasswordSource::Ask));
    let menu = password_choices(&cfg, Some("beta"), &tries.tried).unwrap();
    assert_eq!(menu.len(), 3);
    match &menu[0] {
        PasswordChoice::Profile { label, slug } => {
            assert_eq!(label, "alpha (password set)");
            assert_eq!(slug, "alpha");
        }
        other => panic!("{other:?}"),
    }
    assert!(matches!(menu[1], PasswordChoice::EnterOnce));
    assert!(matches!(menu[2], PasswordChoice::Cancel));
    let fresh = password_choices(&cfg, Some("beta"), &vec![]).unwrap();
    match &fresh[0] {
        PasswordChoice::Profile { label, .. } => assert_eq!(label, "Auto: beta (from folder path)"),
        other => panic!("{other:?}"),
    }
    assert_eq!(fresh.len(), 4);
    assert!(!tries.after_wrong_password(&cfg, Some("alpha")));
    assert!(password_choices(&cfg, None, &tries.tried).is_err());
}

#[test]
fn single_connection_is_used_without_asking() {
    let mut cfg = DecryptConfig::empty();
    cfg.set_profile_password("only", s("secret"));
    let mut tries = DecryptAttempts::new();
    match tries.password_source(&cfg, None) {
        PasswordSource::Auto { password, announce } => {
            assert_eq!(password, "secret");
            assert_eq!(announce.as_deref(), Some("only"));
        }
        other => panic!("{other:?}"),
    }
    assert!(!tries.after_wrong_password(&cfg, None));
    assert_eq!(tries.tried, vec![s("only")]);
    let text = config_file_content("path = \"x\"\n");
    assert!(text.starts_with("# backup-decrypt configuration (decrypt.toml)\n"));
    assert!(text.ends_with("\n\npath = \"x\"\n"));
}

#[test]
fn menu_selections() {
    assert_eq!(main_menu_choice(0, 2), MainChoice::AddConnection);
    assert_eq!(main_menu_choice(2, 2), MainChoice::Connection(1));
    assert_eq!(main_menu_choice(3, 2), MainChoice::Settings);
    assert_eq!(main_menu_choice(4, 2), MainChoice::StartScheduler);
    assert_eq!(main_menu_choice(5, 2), MainChoice::Exit);
    assert_eq!(settings_choice(2, true), SettingsChoice::ResetBackupsFolder);
    assert_eq!(settings_choice(2, false), SettingsChoice::RecreateRootCa);
    assert_eq!(settings_choice(1, false), SettingsChoice::BackupsFolder);
    assert_eq!(connection_menu_choice(1, 1), ConnectionChoice::Task(0));
    assert_eq!(connection_menu_choice(2, 1), ConnectionChoice::SecretsMode);
    assert_eq!(connection_menu_choice(9, 1), ConnectionChoice::Back);
    assert_eq!(connection_menu_choice(8, 0), ConnectionChoice::Back);
    let sync_actions = task_menu_actions("dir_sync");
    assert_eq!(sync_actions.len(), 10);
    assert_eq!(sync_actions[6], TaskChoice::DirSyncLastFile);
    assert_eq!(task_menu_actions("shell").len(), 9);
    assert_eq!(encrypt_after_type_change("dir_sync", true, true, true), EncryptChoice::Fixed(false));
    assert_eq!(encrypt_after_type_change("shell", true, true, false), EncryptChoice::Ask { default: true });
    assert_eq!(encrypt_after_type_change("shell", false, true, false), EncryptChoice::Fixed(false));
    assert_eq!(toggled_secrets_mode(&conn("wss://h")), "test");
}

#[test]
fn pending_listing_is_by_task_id_each_once() {
    let mut book = PendingBook::new();
    book.register(PendingWork { conn: conn("wss://a/ws"), task: task("t3", "three") });
    book.register(PendingWork { conn: conn("wss://a/ws"), task: task("t1", "one") });
    book.register(PendingWork { conn: conn("wss://a/ws"), task: task("t2", "two") });
    book.register(PendingWork { conn: conn("wss://a/ws"), task: task("t1", "one again") });
    let ids: Vec<String> = book.snapshot("wss://a/ws").into_iter().map(|w| w.task.id).collect();
    assert_eq!(ids, vec![s("t1"), s("t2"), s("t3")]);
    assert_eq!(book.task_names("wss://a/ws"), vec![s("one again"), s("two"), s("three")]);
    let cleared: Vec<String> = book.clear_url("wss://a/ws").into_iter().map(|w| w.task.task_name).collect();
    assert_eq!(cleared, vec![s("one again"), s("two"), s("three")]);
    assert!(book.snapshot("wss://a/ws").is_empty());
}

fn scheduled(id: &str, schedule: &str, enabled: bool) -> Task {
    let mut t = task(id, id);
    t.schedule = s(schedule);
    t.enabled = enabled;
    t
}

#[test]
fn due_within_looks_at_enabled_tasks_in_order() {
    let after = 1_767_225_600; // 2026-01-01T00:00:00Z
    let tasks = vec![scheduled("a", "30 6 * * *", true), scheduled("b", "*/1 * * * *", false)];
    assert_eq!(task_due_within(&tasks, after, 7 * 3600, 0), Ok(true));
    assert_eq!(task_due_within(&tasks, after, 6 * 3600, 0), Ok(false));
    assert_eq!(task_due_within(&tasks, after, 4 * 3600, 3 * 3600), Ok(true));
    let bad_first = vec![scheduled("x", "61 * * * *", true), scheduled("a", "30 6 * * *", true)];
    assert!(matches!(task_due_within(&bad_first, after, 7 * 3600, 0), Err(NextRunError::Cron(_))));
    let due_first = vec![scheduled("a", "30 6 * * *", true), scheduled("x", "61 * * * *", true)];
    assert_eq!(task_due_within(&due_first, after, 7 * 3600, 0), Ok(true));
    assert_eq!(task_due_within(&Vec::new(), after, 7 * 3600, 0), Ok(false));
}

#[test]
fn sort_keeps_case_insensitive_ties_in_order() {
    let items = vec![
        (s("b"), s("1")),
        (s("a"), s("2")),
        (s("A"), s("3")),
        (s("a"), s("4")),
    ];
    let paths: Vec<String> = sort_by_name(items).into_iter().map(|p| p.1).collect();
    assert_eq!(paths, vec![s("2"), s("3"), s("4"), s("1")]);
}
