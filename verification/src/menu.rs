//! The terminal menus: which entry a selection stands for, the entries a task
//! offers, and the choices that follow an edit.
use vstd::prelude::*;

use crate::i18n::{fill, reps_view, Translator};
use crate::models::Connection;
use crate::retention::{retention_label, retention_label_key, RETENTION_OPTIONS};
use crate::text::str_eq;
use crate::validation::{normalize_task_type, spec_normalize_task_type};

verus! {

/// An entry of the main menu.
#[derive(Debug, Clone, Copy, PartialEq, Eq)]
pub enum MainChoice {
    AddConnection,
    /// The connection at this index of the list.
    Connection(usize),
    Settings,
    StartScheduler,
    Exit,
}

/// The main menu lists "add", the connections, then settings, scheduler, exit.
pub fn main_menu_choice(sel: usize, n_connections: usize) -> (r: MainChoice)
    requires
        sel < n_connections + 4 <= usize::MAX,
    ensures
        sel == 0 ==> r == MainChoice::AddConnection,
        sel != 0 && sel == n_connections + 3 ==> r == MainChoice::Exit,
        sel != 0 && sel == n_connections + 2 ==> r == MainChoice::StartScheduler,
        sel != 0 && sel == n_connections + 1 ==> r == MainChoice::Settings,
        1 <= sel <= n_connections ==> r == MainChoice::Connection((sel - 1) as usize),
{
    let len = n_connections + 4;
    if sel == 0 {
        MainChoice::AddConnection
    } else if sel == len - 1 {
        MainChoice::Exit
    } else if sel == len - 2 {
        MainChoice::StartScheduler
    } else if sel == len - 3 {
        MainChoice::Settings
    } else {
        MainChoice::Connection(sel - 1)
    }
}

/// An entry of the settings menu.
#[derive(Debug, Clone, Copy, PartialEq, Eq)]
pub enum SettingsChoice {
    Language,
    BackupsFolder,
    /// Only offered while a custom folder is set.
    ResetBackupsFolder,
    RecreateRootCa,
    Back,
}

/// The settings menu: language, folder, (reset folder), recreate CA, back.
pub fn settings_choice(sel: usize, has_custom_folder: bool) -> (r: SettingsChoice)
    requires
        sel < (if has_custom_folder {
            5usize
        } else {
            4usize
        }),
    ensures
        has_custom_folder ==> r == [
            SettingsChoice::Language,
            SettingsChoice::BackupsFolder,
            SettingsChoice::ResetBackupsFolder,
            SettingsChoice::RecreateRootCa,
            SettingsChoice::Back,
        ]@[sel as int],
        !has_custom_folder ==> r == [
            SettingsChoice::Language,
            SettingsChoice::BackupsFolder,
            SettingsChoice::RecreateRootCa,
            SettingsChoice::Back,
        ]@[sel as int],
{
    let len: usize = if has_custom_folder {
        5
    } else {
        4
    };
    if sel == len - 1 {
        SettingsChoice::Back
    } else if sel == 0 {
        SettingsChoice::Language
    } else if has_custom_folder && sel == len - 3 {
        SettingsChoice::ResetBackupsFolder
    } else if sel == len - 2 {
        SettingsChoice::RecreateRootCa
    } else {
        SettingsChoice::BackupsFolder
    }
}

/// An entry of a connection's menu.
#[derive(Debug, Clone, Copy, PartialEq, Eq)]
pub enum ConnectionChoice {
    AddTask,
    /// The task at this index of the list.
    Task(usize),
    SecretsMode,
    Retention,
    Test,
    ToggleEnabled,
    RenewCertificate,
    Edit,
    Delete,
    Back,
}

/// A connection's menu lists "add task", its tasks, then secrets mode,
/// retention, test, enable/disable, renew certificate, edit, delete, back.
pub fn connection_menu_choice(sel: usize, n_tasks: usize) -> (r: ConnectionChoice)
    requires
        sel < n_tasks + 9 <= usize::MAX,
    ensures
        sel == 0 ==> r == ConnectionChoice::AddTask,
        1 <= sel <= n_tasks ==> r == ConnectionChoice::Task((sel - 1) as usize),
        sel > n_tasks ==> r == [
            ConnectionChoice::SecretsMode,
            ConnectionChoice::Retention,
            ConnectionChoice::Test,
            ConnectionChoice::ToggleEnabled,
            ConnectionChoice::RenewCertificate,
            ConnectionChoice::Edit,
            ConnectionChoice::Delete,
            ConnectionChoice::Back,
        ]@[sel - n_tasks - 1],
{
    let len = n_tasks + 9;
    if sel == 0 {
        ConnectionChoice::AddTask
    } else if sel == len - 1 {
        ConnectionChoice::Back
    } else if sel == len - 2 {
        ConnectionChoice::Delete
    } else if sel == len - 3 {
        ConnectionChoice::Edit
    } else if sel == len - 4 {
        ConnectionChoice::RenewCertificate
    } else if sel == len - 5 {
        ConnectionChoice::ToggleEnabled
    } else if sel == len - 6 {
        ConnectionChoice::Test
    } else if sel == len - 7 {
        ConnectionChoice::Retention
    } else if sel == len - 8 {
        ConnectionChoice::SecretsMode
    } else {
        ConnectionChoice::Task(sel - 1)
    }
}

/// An entry of a task's menu.
#[derive(Debug, Clone, Copy, PartialEq, Eq)]
pub enum TaskChoice {
    EditName,
    EditType,
    EditParams,
    EditSchedule,
    ToggleEnabled,
    EncryptMode,
    /// The last received archive of a `dir_sync` task (select to reset it).
    DirSyncLastFile,
    RunNow,
    Delete,
    Back,
}

/// The entries of a task's menu, in order.
pub open spec fn spec_task_actions(task_type: Seq<char>) -> Seq<TaskChoice> {
    let head = seq![
        TaskChoice::EditName,
        TaskChoice::EditType,
        TaskChoice::EditParams,
        TaskChoice::EditSchedule,
        TaskChoice::ToggleEnabled,
        TaskChoice::EncryptMode,
    ];
    let mid = if spec_normalize_task_type(task_type) == "dir_sync"@ {
        seq![TaskChoice::DirSyncLastFile]
    } else {
        Seq::empty()
    };
    head + mid + seq![TaskChoice::RunNow, TaskChoice::Delete, TaskChoice::Back]
}

/// The entries a task's menu offers (the last-archive entry only for `dir_sync`).
pub fn task_menu_actions(task_type: &str) -> (r: Vec<TaskChoice>)
    ensures
        r@ == spec_task_actions(task_type@),
{
    let mut v = vec![
        TaskChoice::EditName,
        TaskChoice::EditType,
        TaskChoice::EditParams,
        TaskChoice::EditSchedule,
        TaskChoice::ToggleEnabled,
        TaskChoice::EncryptMode,
    ];
    if str_eq(normalize_task_type(task_type), "dir_sync") {
        v.push(TaskChoice::DirSyncLastFile);
    }
    v.push(TaskChoice::RunNow);
    v.push(TaskChoice::Delete);
    v.push(TaskChoice::Back);
    assert(v@ =~= spec_task_actions(task_type@));
    v
}

/// The "edit parameters" entry: with the parameter summary when there is one.
pub fn edit_params_label(tr: &Translator, summary: &str) -> (r: String)
    ensures
        summary@.len() == 0 ==> r@ == tr.text("task.edit_params"@),
        summary@.len() > 0 ==> r@ == fill(
            tr.text("task.edit_params_summary"@),
            seq![("summary"@, summary@)],
        ),
{
    if summary.is_empty() {
        tr.t("task.edit_params")
    } else {
        let reps = [("summary", summary)];
        assert(reps_view(reps@) =~= seq![("summary"@, summary@)]);
        tr.t_fmt("task.edit_params_summary", &reps)
    }
}

/// How the encryption flag is chosen after a task's type changed.
#[derive(Debug, Clone, Copy, PartialEq, Eq)]
pub enum EncryptChoice {
    /// Use this value.
    Fixed(bool),
    /// Ask, offering this value first.
    Ask { default: bool },
}

/// After a type change: never for `dir_sync`; ask (offering the old flag)
/// when the parameters were entered anew; else keep the data's flag.
pub fn encrypt_after_type_change(
    new_type: &str,
    params_reentered: bool,
    old_flag: bool,
    kept_flag: bool,
) -> (r: EncryptChoice)
    ensures
        spec_normalize_task_type(new_type@) == "dir_sync"@ ==> r == EncryptChoice::Fixed(false),
        spec_normalize_task_type(new_type@) != "dir_sync"@ && params_reentered ==> r == (
        EncryptChoice::Ask { default: old_flag }),
        spec_normalize_task_type(new_type@) != "dir_sync"@ && !params_reentered ==> r
            == EncryptChoice::Fixed(kept_flag),
{
    if str_eq(normalize_task_type(new_type), "dir_sync") {
        EncryptChoice::Fixed(false)
    } else if params_reentered {
        EncryptChoice::Ask { default: old_flag }
    } else {
        EncryptChoice::Fixed(kept_flag)
    }
}

/// The secrets mode a connection switches to (`test` ↔ `production`).
pub fn toggled_secrets_mode(conn: &Connection) -> (r: &'static str)
    ensures
        conn.secrets_mode@ == "production"@ ==> r@ == "test"@,
        conn.secrets_mode@ != "production"@ ==> r@ == "production"@,
{
    if conn.is_production() {
        "test"
    } else {
        "production"
    }
}

/// The position of a retention period among the menu options (the first when
/// it is not one of them).
pub fn retention_option_index(days: i32) -> (r: usize)
    ensures
        r < 5,
        (exists|k: int| 0 <= k < 5 && RETENTION_OPTIONS@[k] == days) ==> RETENTION_OPTIONS@[r as int]
            == days,
        (forall|k: int| 0 <= k < 5 ==> RETENTION_OPTIONS@[k] != days) ==> r == 0,
{
    let mut i: usize = 0;
    while i < 5
        invariant
            i <= 5,
            forall|k: int| 0 <= k < i ==> RETENTION_OPTIONS@[k] != days,
        decreases 5 - i,
    {
        if RETENTION_OPTIONS[i] == days {
            return i;
        }
        i = i + 1;
    }
    0
}

/// A retention menu option: "never" for 0, else the period's label.
pub fn retention_option_label(tr: &Translator, days: i32) -> (r: String)
    ensures
        days == 0 ==> r@ == tr.text("retention.option_never"@),
        days != 0 ==> r@ == fill(
            tr.text("retention.option_days"@),
            seq![("label"@, tr.text(retention_label_key(days)))],
        ),
{
    if days == 0 {
        tr.t("retention.option_never")
    } else {
        let label = retention_label(tr, days);
        let reps = [("label", label.as_str())];
        assert(reps_view(reps@) =~= seq![("label"@, tr.text(retention_label_key(days)))]);
        tr.t_fmt("retention.option_days", &reps)
    }
}

} // verus!
