//! Paths of the client's files, relative to its install folder (`app_root`,
//! found by the caller). Paths are written with `/` between segments.
use vstd::prelude::*;

use crate::i18n::Translator;
use crate::text::{append_chars, chars_of, string_of, trim, trim_chars};

verus! {

/// Default backups root relative to the client install folder.
pub const DEFAULT_BACKUPS_DIR: &'static str = "data/backups";

/// `base` followed by `seg`, with one `/` between them.
pub open spec fn path_join(base: Seq<char>, seg: Seq<char>) -> Seq<char> {
    if base.len() == 0 {
        seg
    } else if base.last() == '/' {
        base + seg
    } else {
        base + seq!['/'] + seg
    }
}

/// `base` followed by `seg`, with one `/` between them.
pub fn join_path(base: &str, seg: &str) -> (r: String)
    ensures
        r@ == path_join(base@, seg@),
{
    let mut v = chars_of(base);
    let s = chars_of(seg);
    if v.len() > 0 && v[v.len() - 1] != '/' {
        v.push('/');
    }
    append_chars(&mut v, &s);
    string_of(&v)
}

/// `{app_root}/backup.db`.
pub fn db_path(app_root: &str) -> (r: String)
    ensures
        r@ == path_join(app_root@, "backup.db"@),
{
    join_path(app_root, "backup.db")
}

/// `{app_root}/data`.
pub fn data_dir(app_root: &str) -> (r: String)
    ensures
        r@ == path_join(app_root@, "data"@),
{
    join_path(app_root, "data")
}

/// `{app_root}/data/backup.log`.
pub fn log_path(app_root: &str) -> (r: String)
    ensures
        r@ == path_join(path_join(app_root@, "data"@), "backup.log"@),
{
    let d = data_dir(app_root);
    join_path(d.as_str(), "backup.log")
}

/// The configured backups root: the trimmed custom path, or the default
/// folder under `app_root` when none (or a blank one) is configured.
pub open spec fn spec_backups_root(app_root: Seq<char>, custom: Option<Seq<char>>) -> Seq<char> {
    match custom {
        Some(c) => if trim(c).len() > 0 {
            trim(c)
        } else {
            path_join(app_root, "data/backups"@)
        },
        None => path_join(app_root, "data/backups"@),
    }
}

pub open spec fn opt_view(o: Option<&str>) -> Option<Seq<char>> {
    match o {
        Some(s) => Some(s@),
        None => None,
    }
}

/// `custom` empty/None → `{app_root}/data/backups`; otherwise the configured path.
pub fn resolve_backups_root(app_root: &str, custom: Option<&str>) -> (r: String)
    ensures
        r@ == spec_backups_root(app_root@, opt_view(custom)),
{
    if let Some(c) = custom {
        let t = trim_chars(&chars_of(c));
        if t.len() > 0 {
            return string_of(&t);
        }
    }
    join_path(app_root, DEFAULT_BACKUPS_DIR)
}

/// The default backups root.
pub fn backups_root(app_root: &str) -> (r: String)
    ensures
        r@ == spec_backups_root(app_root@, None),
{
    resolve_backups_root(app_root, None)
}

/// The folder of one connection's backups.
pub fn connection_backups_dir_with(backups_root: &str, slug: &str) -> (r: String)
    ensures
        r@ == path_join(backups_root@, slug@),
{
    join_path(backups_root, slug)
}

/// Cyrillic block (U+0400–U+04FF).
pub open spec fn is_cyrillic(c: char) -> bool {
    0x400 <= (c as u32) && (c as u32) <= 0x4ff
}

/// Characters outside ASCII and Cyrillic (e.g. CJK).
pub open spec fn is_extended(c: char) -> bool {
    (c as u32) >= 128 && !is_cyrillic(c)
}

/// True if the path contains characters outside ASCII and Cyrillic (e.g. CJK).
pub fn path_has_extended_unicode(path: &str) -> (r: bool)
    ensures
        r == exists|i: int| 0 <= i < path@.len() && is_extended(#[trigger] path@[i]),
{
    let v = chars_of(path);
    let mut i: usize = 0;
    while i < v.len()
        invariant
            i <= v.len(),
            v@ == path@,
            forall|j: int| 0 <= j < i ==> !is_extended(#[trigger] v@[j]),
        decreases v.len() - i,
    {
        let u = v[i] as u32;
        if u >= 128 && !(0x400 <= u && u <= 0x4ff) {
            return true;
        }
        i = i + 1;
    }
    false
}

/// User-facing note when a custom backups root uses characters outside ASCII and Cyrillic.
pub fn backups_path_unicode_warning(tr: &Translator, path: &str) -> (r: Option<String>)
    ensures
        (exists|i: int| 0 <= i < path@.len() && is_extended(#[trigger] path@[i])) ==> r is Some
            && r->0@ == tr.text("settings.backups_unicode_warn"@),
        !(exists|i: int| 0 <= i < path@.len() && is_extended(#[trigger] path@[i])) ==> r is None,
{
    if path_has_extended_unicode(path) {
        Some(tr.t("settings.backups_unicode_warn"))
    } else {
        None
    }
}

/// User-facing label for Settings (relative default for portability).
pub fn backups_root_label(tr: &Translator, custom: Option<&str>) -> (r: String)
    ensures
        custom matches Some(c) && trim(c@).len() > 0 ==> r@ == trim(custom->0@),
        !(custom matches Some(c) && trim(c@).len() > 0) ==> r@ == "data/backups"@ + seq![' ']
            + tr.text("common.default_paren"@),
{
    if let Some(c) = custom {
        let t = trim_chars(&chars_of(c));
        if t.len() > 0 {
            return string_of(&t);
        }
    }
    let mut v = chars_of(DEFAULT_BACKUPS_DIR);
    v.push(' ');
    let d = tr.t("common.default_paren");
    append_chars(&mut v, &chars_of(d.as_str()));
    string_of(&v)
}

} // verus!
