//! Connection, task and run records as the client stores them.
use vstd::prelude::*;

use crate::clock::Instant;
use crate::i18n::Translator;
use crate::text::{append_chars, chars_of, str_eq, string_of};
use crate::ui::{host_from_url, spec_server_addr};

verus! {

/// Connection record (slug, WSS URL, API key, TLS).
#[derive(Debug)]
pub struct Connection {
    pub id: String,
    pub slug: String,
    pub url: String,
    pub api_key: String,
    pub tls_enabled: bool,
    pub cert_fingerprint: Option<String>,
    pub enabled: bool,
    pub created_at: String,
    pub secrets_mode: String,
    pub retention_days: i32,
    pub retention_last_run: Option<String>,
}

/// Scheduled task definition bound to a connection.
#[derive(Debug)]
pub struct Task {
    pub id: String,
    pub connection_id: String,
    pub task_name: String,
    pub task_type: String,
    pub data_json: String,
    pub schedule: String,
    pub enabled: bool,
    pub last_run: Option<Instant>,
    pub created_at: Instant,
}

/// One row of run history: status, file size, anomalies.
#[derive(Clone, Debug)]
pub struct TaskRun {
    pub id: i64,
    pub task_id: String,
    pub run_at: Instant,
    pub status: String,
    pub file_size_bytes: Option<i64>,
    pub file_path: Option<String>,
    pub error: Option<String>,
    pub anomaly_flags: Option<String>,
    pub server_run_id: Option<String>,
}

/// The catalog key of a retention period's short label.
pub open spec fn retention_short_key(days: i32) -> Seq<char> {
    if days == 0 {
        "retention.short_never"@
    } else if days == 7 {
        "retention.short_7d"@
    } else if days == 14 {
        "retention.short_14d"@
    } else if days == 30 {
        "retention.short_30d"@
    } else if days == 60 {
        "retention.short_60d"@
    } else {
        "retention.short_unknown"@
    }
}

impl Connection {
    /// `{host:port} | {slug}`.
    pub fn label(&self) -> (r: String)
        ensures
            r@ == spec_server_addr(self.url@) + " | "@ + self.slug@,
    {
        let h = host_from_url(self.url.as_str());
        let mut v = chars_of(h.as_str());
        let sep = chars_of(" | ");
        append_chars(&mut v, &sep);
        let s = chars_of(self.slug.as_str());
        append_chars(&mut v, &s);
        string_of(&v)
    }

    /// Whether secrets are kept only on the server (production mode).
    pub fn is_production(&self) -> (r: bool)
        ensures
            r == (self.secrets_mode@ == "production"@),
    {
        str_eq(self.secrets_mode.as_str(), "production")
    }

    /// The secrets mode, in the current language.
    pub fn secrets_mode_label(&self, tr: &Translator) -> (r: String)
        ensures
            self.secrets_mode@ == "production"@ ==> r@ == tr.text("secrets.production"@),
            self.secrets_mode@ != "production"@ ==> r@ == tr.text("secrets.test"@),
    {
        if self.is_production() {
            tr.t("secrets.production")
        } else {
            tr.t("secrets.test")
        }
    }

    /// The retention period, short form, in the current language.
    pub fn retention_short(&self, tr: &Translator) -> (r: String)
        ensures
            r@ == tr.text(retention_short_key(self.retention_days)),
    {
        match self.retention_days {
            0 => tr.t("retention.short_never"),
            7 => tr.t("retention.short_7d"),
            14 => tr.t("retention.short_14d"),
            30 => tr.t("retention.short_30d"),
            60 => tr.t("retention.short_60d"),
            _ => tr.t("retention.short_unknown"),
        }
    }
}

/// A copy of an optional text.
pub fn clone_opt(o: &Option<String>) -> (r: Option<String>)
    ensures
        r == *o,
{
    match o {
        Some(s) => Some(s.clone()),
        None => None,
    }
}

impl Clone for Connection {
    fn clone(&self) -> (r: Self)
        ensures
            r == *self,
    {
        Connection {
            id: self.id.clone(),
            slug: self.slug.clone(),
            url: self.url.clone(),
            api_key: self.api_key.clone(),
            tls_enabled: self.tls_enabled,
            cert_fingerprint: clone_opt(&self.cert_fingerprint),
            enabled: self.enabled,
            created_at: self.created_at.clone(),
            secrets_mode: self.secrets_mode.clone(),
            retention_days: self.retention_days,
            retention_last_run: clone_opt(&self.retention_last_run),
        }
    }
}

impl Clone for Task {
    fn clone(&self) -> (r: Self)
        ensures
            r == *self,
    {
        Task {
            id: self.id.clone(),
            connection_id: self.connection_id.clone(),
            task_name: self.task_name.clone(),
            task_type: self.task_type.clone(),
            data_json: self.data_json.clone(),
            schedule: self.schedule.clone(),
            enabled: self.enabled,
            last_run: self.last_run,
            created_at: self.created_at,
        }
    }
}

/// The enabled tasks, in order.
pub open spec fn enabled_only(ts: Seq<Task>) -> Seq<Task>
    decreases ts.len(),
{
    if ts.len() == 0 {
        Seq::empty()
    } else if ts.last().enabled {
        enabled_only(ts.drop_last()).push(ts.last())
    } else {
        enabled_only(ts.drop_last())
    }
}

/// Keeps the enabled tasks (what is synced to the server and scheduled).
pub fn enabled_tasks(tasks: &Vec<Task>) -> (r: Vec<Task>)
    ensures
        r@ == enabled_only(tasks@),
{
    let mut out: Vec<Task> = Vec::new();
    let mut i: usize = 0;
    while i < tasks.len()
        invariant
            i <= tasks.len(),
            out@ == enabled_only(tasks@.take(i as int)),
        decreases tasks.len() - i,
    {
        assert(tasks@.take(i + 1).drop_last() =~= tasks@.take(i as int));
        assert(tasks@.take(i + 1).last() == tasks@[i as int]);
        if tasks[i].enabled {
            out.push(tasks[i].clone());
        }
        i = i + 1;
    }
    assert(tasks@.take(tasks.len() as int) =~= tasks@);
    out
}

/// The enabled tasks are exactly the tasks that are enabled: each kept task
/// is enabled and every enabled task is kept.
pub proof fn law_enabled_only(ts: Seq<Task>)
    ensures
        forall|i: int| 0 <= i < enabled_only(ts).len() ==> (#[trigger] enabled_only(ts)[i]).enabled,
        forall|i: int| 0 <= i < ts.len() && (#[trigger] ts[i]).enabled ==> enabled_only(ts).contains(ts[i]),
        forall|i: int| 0 <= i < enabled_only(ts).len() ==> ts.contains(#[trigger] enabled_only(ts)[i]),
    decreases ts.len(),
{
    if ts.len() > 0 {
        let t = ts.drop_last();
        law_enabled_only(t);
        let e = enabled_only(t);
        assert forall|i: int| 0 <= i < ts.len() && (#[trigger] ts[i]).enabled implies enabled_only(
            ts,
        ).contains(ts[i]) by {
            if i < t.len() {
                assert(ts[i] == t[i]);
                let k = choose|k: int| 0 <= k < e.len() && e[k] == t[i];
                if ts.last().enabled {
                    assert(enabled_only(ts)[k] == e[k]);
                }
            } else {
                assert(enabled_only(ts)[e.len() as int] == ts.last());
            }
        }
        assert forall|i: int| 0 <= i < enabled_only(ts).len() implies ts.contains(
            #[trigger] enabled_only(ts)[i],
        ) by {
            if i < e.len() {
                assert(enabled_only(ts)[i] == e[i]);
                let k = choose|k: int| 0 <= k < t.len() && t[k] == e[i];
                assert(ts[k] == t[k]);
            } else {
                assert(ts[ts.len() - 1] == ts.last());
            }
        }
        assert forall|i: int| 0 <= i < enabled_only(ts).len() implies (#[trigger] enabled_only(
            ts,
        )[i]).enabled by {
            if i < e.len() {
                assert(enabled_only(ts)[i] == e[i]);
            }
        }
    }
}

} // verus!
