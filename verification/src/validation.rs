//! Input validation: slugs, task types, DB fields.
use vstd::prelude::*;

use crate::i18n::{fill, Translator};
use crate::text::{
    chars_of, is_ascii_alnum, is_ascii_alnum_char, is_slug_char, parse_u16, parse_u16_chars,
    slug_filter, str_eq, string_of, trim, trim_chars,
};

verus! {

pub open spec fn all_slug_chars(s: Seq<char>) -> bool {
    forall|i: int| 0 <= i < s.len() ==> is_slug_char(#[trigger] s[i])
}

pub open spec fn is_host_char(c: char) -> bool {
    is_ascii_alnum(c) || c == '.' || c == '-'
}

pub open spec fn all_host_chars(s: Seq<char>) -> bool {
    forall|i: int| 0 <= i < s.len() ==> is_host_char(#[trigger] s[i])
}

fn slug_char(c: char) -> (r: bool)
    ensures
        r == is_slug_char(c),
{
    is_ascii_alnum_char(c) || c == '_' || c == '-'
}

fn all_slug(s: &[char]) -> (r: bool)
    ensures
        r == all_slug_chars(s@),
{
    let mut i: usize = 0;
    while i < s.len()
        invariant
            i <= s.len(),
            forall|j: int| 0 <= j < i ==> is_slug_char(#[trigger] s@[j]),
        decreases s.len() - i,
    {
        if !slug_char(s[i]) {
            return false;
        }
        i = i + 1;
    }
    true
}

/// Keeps only ASCII letters, digits, `_` and `-`.
pub fn sanitize_slug(input: &str) -> (r: String)
    ensures
        r@ == slug_filter(input@),
{
    let v = chars_of(input);
    let mut out: Vec<char> = Vec::new();
    let mut i: usize = 0;
    assert(v@.take(0) =~= Seq::<char>::empty());
    while i < v.len()
        invariant
            i <= v.len(),
            out@ == slug_filter(v@.take(i as int)),
        decreases v.len() - i,
    {
        assert(v@.take(i + 1).drop_last() =~= v@.take(i as int));
        assert(v@.take(i + 1).last() == v@[i as int]);
        if slug_char(v[i]) {
            out.push(v[i]);
        }
        i = i + 1;
    }
    assert(v@.take(v.len() as int) =~= v@);
    string_of(&out)
}

/// Non-blank after trimming and made only of ASCII letters, digits, `_` and `-`.
pub fn is_latin_identifier(input: &str) -> (r: bool)
    ensures
        r == (trim(input@).len() > 0 && all_slug_chars(trim(input@))),
{
    let v = chars_of(input);
    let t = trim_chars(&v);
    t.len() > 0 && all_slug(&t)
}

/// A database name or user: required, and a Latin identifier.
pub fn validate_db_identifier(tr: &Translator, label: &str, value: &str) -> (r: Result<
    String,
    String,
>)
    ensures
        trim(value@).len() == 0 ==> r is Err && r->Err_0@ == fill(
            tr.text("validation.field_required"@),
            seq![("label"@, label@)],
        ),
        trim(value@).len() > 0 && !all_slug_chars(trim(value@)) ==> r is Err && r->Err_0@ == fill(
            tr.text("validation.field_latin"@),
            seq![("label"@, label@)],
        ),
        trim(value@).len() > 0 && all_slug_chars(trim(value@)) ==> r is Ok && r->Ok_0@ == trim(
            value@,
        ),
{
    let v = chars_of(value);
    let t = trim_chars(&v);
    if t.len() == 0 {
        let reps = [("label", label)];
        assert(crate::i18n::reps_view(reps@) =~= seq![("label"@, label@)]);
        return Err(tr.t_fmt("validation.field_required", &reps));
    }
    if !all_slug(&t) {
        let reps = [("label", label)];
        assert(crate::i18n::reps_view(reps@) =~= seq![("label"@, label@)]);
        return Err(tr.t_fmt("validation.field_latin", &reps));
    }
    Ok(string_of(&t))
}

pub fn all_host(s: &[char]) -> (r: bool)
    ensures
        r == all_host_chars(s@),
{
    let mut i: usize = 0;
    while i < s.len()
        invariant
            i <= s.len(),
            forall|j: int| 0 <= j < i ==> is_host_char(#[trigger] s@[j]),
        decreases s.len() - i,
    {
        if !(is_ascii_alnum_char(s[i]) || s[i] == '.' || s[i] == '-') {
            return false;
        }
        i = i + 1;
    }
    true
}

/// A database host: `localhost`, an IPv4 address or a host name.
///
/// Every string of digits and dots (the only IP addresses accepted in the
/// first place) is also made of host-name characters, so the host-name rule
/// alone decides.
pub fn validate_db_host(tr: &Translator, value: &str) -> (r: Result<String, String>)
    ensures
        trim(value@).len() == 0 ==> r is Err && r->Err_0@ == tr.text(
            "validation.db_host_required"@,
        ),
        trim(value@).len() > 0 && (trim(value@) == "localhost"@ || all_host_chars(trim(value@)))
            ==> r is Ok && r->Ok_0@ == trim(value@),
        trim(value@).len() > 0 && !(trim(value@) == "localhost"@ || all_host_chars(trim(value@)))
            ==> r is Err && r->Err_0@ == tr.text("validation.db_host_format"@),
{
    let v = chars_of(value);
    let t = trim_chars(&v);
    if t.len() == 0 {
        return Err(tr.t("validation.db_host_required"));
    }
    let ts = string_of(&t);
    if str_eq(ts.as_str(), "localhost") {
        return Ok(ts);
    }
    if all_host(&t) {
        return Ok(ts);
    }
    Err(tr.t("validation.db_host_format"))
}

/// A database port: a number from 1 to 65535.
pub fn validate_db_port(tr: &Translator, value: &str) -> (r: Result<u16, String>)
    ensures
        parse_u16(trim(value@)) is None ==> r is Err && r->Err_0@ == tr.text(
            "validation.db_port_number"@,
        ),
        parse_u16(trim(value@)) == Some(0u16) ==> r is Err && r->Err_0@ == tr.text(
            "validation.db_port_range"@,
        ),
        (parse_u16(trim(value@)) matches Some(p) && p != 0) ==> r == Ok::<u16, String>(
            parse_u16(trim(value@))->0,
        ),
{
    let v = chars_of(value);
    let t = trim_chars(&v);
    let port = match parse_u16_chars(&t) {
        Some(p) => p,
        None => {
            return Err(tr.t("validation.db_port_number"));
        },
    };
    if port == 0 {
        return Err(tr.t("validation.db_port_range"));
    }
    Ok(port)
}

/// The stored name of a task type (`file_archive` is the old spelling).
pub open spec fn spec_normalize_task_type(t: Seq<char>) -> Seq<char> {
    if t == "file_archive"@ {
        "files_archive"@
    } else {
        t
    }
}

/// The current spelling of a task type.
pub fn normalize_task_type(task_type: &str) -> (r: &str)
    ensures
        r@ == spec_normalize_task_type(task_type@),
{
    if str_eq(task_type, "file_archive") {
        "files_archive"
    } else {
        task_type
    }
}

/// Filtering keeps only slug characters and never lengthens the text.
proof fn lemma_slug_filter_shape(s: Seq<char>)
    ensures
        slug_filter(s).len() <= s.len(),
        all_slug_chars(slug_filter(s)),
    decreases s.len(),
{
    if s.len() > 0 {
        lemma_slug_filter_shape(s.drop_last());
        let f = slug_filter(s.drop_last());
        if is_slug_char(s.last()) {
            assert forall|i: int| 0 <= i < f.push(s.last()).len() implies is_slug_char(
                #[trigger] f.push(s.last())[i],
            ) by {
                if i < f.len() {
                    assert(f.push(s.last())[i] == f[i]);
                }
            }
        }
    }
}

/// A text made of slug characters is what filtering it gives, and only such a
/// text is.
proof fn lemma_slug_filter_fixed(s: Seq<char>)
    ensures
        (slug_filter(s) == s) == all_slug_chars(s),
    decreases s.len(),
{
    if s.len() > 0 {
        let t = s.drop_last();
        lemma_slug_filter_fixed(t);
        lemma_slug_filter_shape(t);
        if is_slug_char(s.last()) {
            if slug_filter(s) == s {
                assert(slug_filter(t) =~= slug_filter(s).drop_last());
                assert(s.drop_last() =~= t);
                assert forall|i: int| 0 <= i < s.len() implies is_slug_char(#[trigger] s[i]) by {
                    if i < t.len() {
                        assert(s[i] == t[i]);
                    }
                }
            }
            if all_slug_chars(s) {
                assert forall|i: int| 0 <= i < t.len() implies is_slug_char(#[trigger] t[i]) by {
                    assert(t[i] == s[i]);
                }
                assert(t.push(s.last()) =~= s);
            }
        } else {
            assert(!is_slug_char(s[s.len() - 1]));
        }
    } else {
        assert(slug_filter(s) =~= s);
    }
}

/// Sanitizing a sanitized slug changes nothing.
pub proof fn law_sanitize_idempotent(s: Seq<char>)
    ensures
        slug_filter(slug_filter(s)) == slug_filter(s),
{
    lemma_slug_filter_shape(s);
    lemma_slug_filter_fixed(slug_filter(s));
}

/// A text is a Latin identifier exactly when it is non-blank once trimmed and
/// sanitizing the trimmed text leaves it unchanged.
pub proof fn law_latin_is_sanitized(s: Seq<char>)
    ensures
        (trim(s).len() > 0 && all_slug_chars(trim(s))) == (trim(s).len() > 0 && slug_filter(trim(s))
            == trim(s)),
{
    lemma_slug_filter_fixed(trim(s));
}

} // verus!
