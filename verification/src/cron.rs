//! Cron schedule normalization (5-field to 6-field for the job scheduler).
use vstd::prelude::*;

use crate::i18n::{fill, reps_view, Translator};
use crate::models::{enabled_only, enabled_tasks, Task};
use crate::text::{
    append_chars, chars_of, decimal, lemma_trim_no_ws, lemma_word_len_bound, word_len, decimal_chars, is_ws, join, join_chars, lemma_split_join,
    parse_u32, parse_u32_chars, slice_chars, split_ws, split_ws_chars, starts_with, starts_with_at,
    string_of, strip_all_prefix, strip_leading_char, trim, trim_chars, trim_end, trim_start,
};

verus! {

/// Why a schedule was refused.
#[derive(Debug, Clone, PartialEq, Eq)]
pub enum ScheduleError {
    /// Nothing but whitespace was entered.
    Required,
    /// More than five fields were entered.
    TooMany { count: usize },
    /// Every field is `*` (the job would run every minute).
    TooBroad,
    /// A minute step above 59 that is not a whole number of hours.
    MinuteInterval,
    /// The normalized expression does not have five or six fields.
    Invalid { count: usize, expr: String },
}

/// The message of a schedule error in the translator's language.
pub open spec fn schedule_error_text(e: ScheduleError, tr: Translator) -> Seq<char> {
    match e {
        ScheduleError::Required => tr.text("error.schedule_required"@),
        ScheduleError::TooMany { count } => fill(
            tr.text("error.schedule_too_many"@),
            seq![("count"@, decimal(count as nat))],
        ),
        ScheduleError::TooBroad => tr.text("error.schedule_too_broad"@),
        ScheduleError::MinuteInterval => tr.text("error.schedule_minute_interval"@),
        ScheduleError::Invalid { count, expr } => fill(
            tr.text("error.schedule_invalid"@),
            seq![("count"@, decimal(count as nat)), ("expr"@, expr@)],
        ),
    }
}

impl ScheduleError {
    /// The message shown for this error, in the current language.
    pub fn message(&self, tr: &Translator) -> (r: String)
        ensures
            *self == ScheduleError::Required ==> r@ == tr.text("error.schedule_required"@),
            self matches ScheduleError::TooMany { count } ==> r@ == fill(
                tr.text("error.schedule_too_many"@),
                seq![("count"@, decimal(count as nat))],
            ),
            *self == ScheduleError::TooBroad ==> r@ == tr.text("error.schedule_too_broad"@),
            *self == ScheduleError::MinuteInterval ==> r@ == tr.text(
                "error.schedule_minute_interval"@,
            ),
            self matches ScheduleError::Invalid { count, expr } ==> r@ == fill(
                tr.text("error.schedule_invalid"@),
                seq![("count"@, decimal(count as nat)), ("expr"@, expr@)],
            ),
            r@ == schedule_error_text(*self, *tr),
    {
        match self {
            ScheduleError::Required => tr.t("error.schedule_required"),
            ScheduleError::TooMany { count } => {
                let c = string_of(&decimal_chars(*count as u64));
                let reps = [("count", c.as_str())];
                assert(reps_view(reps@) =~= seq![("count"@, decimal(*count as nat))]);
                tr.t_fmt("error.schedule_too_many", &reps)
            },
            ScheduleError::TooBroad => tr.t("error.schedule_too_broad"),
            ScheduleError::MinuteInterval => tr.t("error.schedule_minute_interval"),
            ScheduleError::Invalid { count, expr } => {
                let c = string_of(&decimal_chars(*count as u64));
                let reps = [("count", c.as_str()), ("expr", expr.as_str())];
                assert(reps_view(reps@) =~= seq![
                    ("count"@, decimal(*count as nat)),
                    ("expr"@, expr@),
                ]);
                tr.t_fmt("error.schedule_invalid", &reps)
            },
        }
    }
}

/// The schedule help text, in the current language.
pub fn schedule_help(tr: &Translator) -> (r: String)
    ensures
        r@ == tr.text("schedule.help"@),
{
    tr.t("schedule.help")
}

// ---------------------------------------------------------------------------
// Specification
// ---------------------------------------------------------------------------

pub open spec fn star() -> Seq<char> {
    seq!['*']
}

pub open spec fn star_slash() -> Seq<char> {
    seq!['*', '/']
}

/// One field: blank becomes `*`, a leading `/N` typo becomes `*/N`.
pub open spec fn spec_fix_field(part: Seq<char>) -> Seq<char> {
    let p = trim(part);
    if p.len() == 0 {
        star()
    } else if p[0] == '/' && !starts_with(p, star_slash()) {
        star_slash() + strip_all_prefix(p, seq!['/'])
    } else {
        p
    }
}

/// Minute step of a `*/N` or `/N` field.
pub open spec fn spec_step_minutes(field: Seq<char>) -> Option<u32> {
    let f = trim(field);
    if starts_with(f, star_slash()) {
        parse_u32(f.skip(2))
    } else if starts_with(f, seq!['/']) {
        parse_u32(f.skip(1))
    } else {
        None
    }
}

/// Exactly five fields: missing ones become `*`, extra ones are dropped.
pub open spec fn pad5(parts: Seq<Seq<char>>) -> Seq<Seq<char>> {
    if parts.len() < 5 {
        parts + Seq::new((5 - parts.len()) as nat, |i: int| star())
    } else {
        parts.take(5)
    }
}

/// Whether the fields after the first are all `*`.
pub open spec fn rest_wild(parts: Seq<Seq<char>>) -> bool {
    forall|i: int| 1 <= i < parts.len() ==> #[trigger] parts[i] == star()
}

/// Whether `*/N` minutes with all other fields `*` is a whole number of hours.
pub open spec fn converts_to_hours(parts: Seq<Seq<char>>) -> bool {
    &&& parts.len() >= 5
    &&& rest_wild(parts)
    &&& spec_step_minutes(parts[0]) is Some
    &&& spec_step_minutes(parts[0])->0 >= 60
    &&& spec_step_minutes(parts[0])->0 % 60 == 0
}

/// The hour field for an interval of `hours` hours.
pub open spec fn hour_field(hours: nat) -> Seq<char> {
    if hours == 1 {
        star()
    } else {
        star_slash() + decimal(hours)
    }
}

/// `*/60` style minute intervals rewritten as an hourly schedule.
pub open spec fn convert_hours(parts: Seq<Seq<char>>) -> Seq<Seq<char>> {
    if converts_to_hours(parts) {
        parts.update(0, seq!['0']).update(1, hour_field((spec_step_minutes(parts[0])->0 / 60) as nat))
    } else {
        parts
    }
}

/// The normalized fields of a non-blank schedule.
pub open spec fn normalized_fields(s: Seq<char>) -> Seq<Seq<char>> {
    convert_hours(pad5(split_ws(trim(s)).map_values(|p: Seq<char>| spec_fix_field(p))))
}

/// The five-field form of a schedule (empty for a blank one).
pub open spec fn spec_normalize(s: Seq<char>) -> Seq<char> {
    if trim(s).len() == 0 {
        Seq::empty()
    } else {
        join(normalized_fields(s), seq![' '])
    }
}

pub open spec fn all_wild(s: Seq<char>) -> bool {
    forall|i: int| 0 <= i < split_ws(s).len() ==> #[trigger] split_ws(s)[i] == star()
}

/// A word: non-empty and free of whitespace.
pub open spec fn is_word(w: Seq<char>) -> bool {
    w.len() > 0 && forall|j: int| 0 <= j < w.len() ==> !is_ws(#[trigger] w[j])
}

pub open spec fn all_words(ws: Seq<Seq<char>>) -> bool {
    forall|i: int| 0 <= i < ws.len() ==> is_word(#[trigger] ws[i])
}

// ---------------------------------------------------------------------------
// Lemmas
// ---------------------------------------------------------------------------

proof fn lemma_decimal_word(n: nat)
    ensures
        is_word(decimal(n)),
    decreases n,
{
    if n >= 10 {
        lemma_decimal_word(n / 10);
        let d = decimal(n);
        assert forall|j: int| 0 <= j < d.len() implies !is_ws(#[trigger] d[j]) by {
            if j < d.len() - 1 {
                assert(d[j] == decimal(n / 10)[j]);
            }
        }
    }
}

proof fn lemma_strip_slash(p: Seq<char>)
    requires
        is_word(p) || p.len() == 0 || forall|j: int| 0 <= j < p.len() ==> !is_ws(#[trigger] p[j]),
    ensures
        forall|j: int|
            0 <= j < strip_all_prefix(p, seq!['/']).len() ==> !is_ws(
                #[trigger] strip_all_prefix(p, seq!['/'])[j],
            ),
        strip_all_prefix(p, seq!['/']).len() == 0 || strip_all_prefix(p, seq!['/'])[0] != '/',
    decreases p.len(),
{
    if 1 <= p.len() && p.take(1) == seq!['/'] {
        let q = p.skip(1);
        assert forall|j: int| 0 <= j < q.len() implies !is_ws(#[trigger] q[j]) by {
            assert(q[j] == p[j + 1]);
        }
        lemma_strip_slash(q);
    } else {
        if p.len() >= 1 {
            assert(p.take(1) =~= seq![p[0]]);
        }
    }
}

/// A fixed field of a word is a word.
proof fn lemma_fix_word(part: Seq<char>)
    requires
        forall|j: int| 0 <= j < part.len() ==> !is_ws(#[trigger] part[j]),
    ensures
        is_word(spec_fix_field(part)),
{
    lemma_trim_no_ws(part);
    let p = trim(part);
    if p.len() == 0 {
        assert(is_word(star()));
    } else if p[0] == '/' && !starts_with(p, star_slash()) {
        lemma_strip_slash(p);
        let r = star_slash() + strip_all_prefix(p, seq!['/']);
        assert forall|j: int| 0 <= j < r.len() implies !is_ws(#[trigger] r[j]) by {
            if j >= 2 {
                assert(r[j] == strip_all_prefix(p, seq!['/'])[j - 2]);
            }
        }
    }
}

/// Every piece of a whitespace split is a word.
pub proof fn lemma_split_words(s: Seq<char>)
    ensures
        all_words(split_ws(s)),
    decreases s.len(),
{
    if s.len() == 0 {
    } else if is_ws(s[0]) {
        lemma_split_words(s.drop_first());
    } else {
        lemma_word_len_bound(s);
        let w = word_len(s);
        lemma_split_words(s.skip(w as int));
        let head = s.take(w as int);
        assert forall|j: int| 0 <= j < head.len() implies !is_ws(#[trigger] head[j]) by {
            assert(head[j] == s[j]);
        }
        let r = split_ws(s);
        assert(r == seq![head] + split_ws(s.skip(w as int)));
        assert forall|i: int| 0 <= i < r.len() implies is_word(#[trigger] r[i]) by {
            if i > 0 {
                assert(r[i] == split_ws(s.skip(w as int))[i - 1]);
            }
        }
    }
}

/// The trim of any sequence has no whitespace at either end.
pub proof fn lemma_trim_shape(s: Seq<char>)
    ensures
        trim(s).len() > 0 ==> !is_ws(trim(s)[0]) && !is_ws(trim(s).last()),
        trim(s).len() <= s.len(),
    decreases s.len(),
{
    lemma_trim_start_shape(s);
    lemma_trim_end_shape(trim_start(s));
}

proof fn lemma_trim_start_shape(s: Seq<char>)
    ensures
        trim_start(s).len() > 0 ==> !is_ws(trim_start(s)[0]),
        trim_start(s).len() <= s.len(),
        exists|k: int| 0 <= k <= s.len() && trim_start(s) == s.skip(k),
    decreases s.len(),
{
    if s.len() > 0 && is_ws(s[0]) {
        lemma_trim_start_shape(s.drop_first());
        let k = choose|k: int| 0 <= k <= s.drop_first().len() && trim_start(s.drop_first()) == s.drop_first().skip(k);
        assert(s.drop_first().skip(k) =~= s.skip(k + 1));
    } else {
        assert(s.skip(0) =~= s);
    }
}

proof fn lemma_trim_end_shape(s: Seq<char>)
    ensures
        trim_end(s).len() > 0 ==> !is_ws(trim_end(s).last()),
        trim_end(s).len() <= s.len(),
        trim_end(s).len() > 0 && s.len() > 0 && !is_ws(s[0]) ==> trim_end(s)[0] == s[0],
        trim_end(s) == s.take(trim_end(s).len() as int),
    decreases s.len(),
{
    if s.len() > 0 && is_ws(s.last()) {
        lemma_trim_end_shape(s.drop_last());
        let t = trim_end(s.drop_last());
        assert(s.drop_last().take(t.len() as int) =~= s.take(t.len() as int));
        if t.len() > 0 && s.len() > 0 {
            assert(s.drop_last()[0] == s[0]);
        }
    } else {
        assert(s.take(s.len() as int) =~= s);
    }
}

// ---------------------------------------------------------------------------
// Executable code
// ---------------------------------------------------------------------------

fn is_star(w: &[char]) -> (r: bool)
    ensures
        r == (w@ == star()),
{
    let r = w.len() == 1 && w[0] == '*';
    assert(r ==> w@ =~= star());
    r
}

fn fix_field(part: &[char]) -> (r: Vec<char>)
    ensures
        r@ == spec_fix_field(part@),
{
    let p = trim_chars(part);
    if p.len() == 0 {
        let mut v: Vec<char> = Vec::new();
        v.push('*');
        assert(v@ =~= star());
        return v;
    }
    let slash_star: Vec<char> = vec!['*', '/'];
    assert(slash_star@ =~= star_slash());
    if p[0] == '/' && !starts_with_at(&p, 0, &slash_star) {
        assert(p@.skip(0) =~= p@);
        let mut v = slash_star;
        let rest = strip_leading_char(&p, '/');
        append_chars(&mut v, &rest);
        v
    } else {
        assert(p@.skip(0) =~= p@);
        p
    }
}

/// Minute-step value from `*/N` or `/N` (before padding other fields).
fn parse_step_minutes(field: &[char]) -> (r: Option<u32>)
    ensures
        r == spec_step_minutes(field@),
{
    let f = trim_chars(field);
    let slash_star: Vec<char> = vec!['*', '/'];
    let slash: Vec<char> = vec!['/'];
    assert(slash_star@ =~= star_slash());
    assert(slash@ =~= seq!['/']);
    assert(f@.skip(0) =~= f@);
    if starts_with_at(&f, 0, &slash_star) {
        let n = slice_chars(&f, 2, f.len());
        assert(n@ =~= f@.skip(2));
        parse_u32_chars(&n)
    } else if starts_with_at(&f, 0, &slash) {
        let n = slice_chars(&f, 1, f.len());
        assert(n@ =~= f@.skip(1));
        parse_u32_chars(&n)
    } else {
        None
    }
}

pub open spec fn views(v: Seq<Vec<char>>) -> Seq<Seq<char>> {
    v.map_values(|w: Vec<char>| w@)
}

/// `*/60`, `*/120`, … → hourly cron when remaining fields are wildcards.
/// Standard cron minutes are 0–59; intervals ≥60 minutes belong in the hour field.
fn try_convert_minute_interval_to_hours(parts: &mut Vec<Vec<char>>) -> (r: bool)
    ensures
        r == converts_to_hours(views(old(parts)@)),
        views(final(parts)@) == convert_hours(views(old(parts)@)),
{
    let ghost ps = views(parts@);
    if parts.len() < 5 {
        return false;
    }
    let mut i: usize = 1;
    while i < parts.len()
        invariant
            1 <= i <= parts.len(),
            ps == views(parts@),
            forall|k: int| 1 <= k < i ==> #[trigger] ps[k] == star(),
        decreases parts.len() - i,
    {
        if !is_star(&parts[i]) {
            assert(ps[i as int] == parts@[i as int]@);
            return false;
        }
        i = i + 1;
    }
    assert(rest_wild(ps));
    assert(ps[0] == parts@[0]@);
    let minutes = match parse_step_minutes(&parts[0]) {
        Some(m) => m,
        None => {
            return false;
        },
    };
    if minutes < 60 || minutes % 60 != 0 {
        return false;
    }
    let hours = minutes / 60;
    let zero: Vec<char> = vec!['0'];
    let hour: Vec<char> = if hours == 1 {
        vec!['*']
    } else {
        let mut h: Vec<char> = vec!['*', '/'];
        let d = decimal_chars(hours as u64);
        append_chars(&mut h, &d);
        h
    };
    assert(zero@ =~= seq!['0']);
    assert(hour@ =~= hour_field(hours as nat));
    parts.set(0, zero);
    parts.set(1, hour);
    assert(views(parts@) =~= ps.update(0, seq!['0']).update(1, hour_field(hours as nat)));
    true
}

/// Normalizes a schedule to five whitespace-separated cron fields.
pub fn normalize_schedule(schedule: &str) -> (r: String)
    ensures
        r@ == spec_normalize(schedule@),
{
    let v = chars_of(schedule);
    let t = trim_chars(&v);
    if t.len() == 0 {
        return String::new();
    }
    let words = split_ws_chars(&t);
    let mut parts: Vec<Vec<char>> = Vec::new();
    let mut i: usize = 0;
    while i < words.len()
        invariant
            i <= words.len(),
            views(words@) == split_ws(t@),
            views(parts@) == views(words@).take(i as int).map_values(
                |p: Seq<char>| spec_fix_field(p),
            ),
        decreases words.len() - i,
    {
        let f = fix_field(&words[i]);
        let ghost before = views(parts@);
        parts.push(f);
        proof {
            let w = views(words@);
            assert(w.take(i + 1) =~= w.take(i as int).push(w[i as int]));
            assert(w[i as int] == words@[i as int]@);
            assert(views(parts@) =~= before.push(spec_fix_field(w[i as int])));
            assert(w.take(i + 1).map_values(|p: Seq<char>| spec_fix_field(p)) =~= w.take(
                i as int,
            ).map_values(|p: Seq<char>| spec_fix_field(p)).push(spec_fix_field(w[i as int])));
        }
        i = i + 1;
    }
    let ghost fixed = views(parts@);
    assert(views(words@).take(words.len() as int) =~= views(words@));
    assert(fixed == split_ws(trim(schedule@)).map_values(|p: Seq<char>| spec_fix_field(p)));
    while parts.len() < 5
        invariant
            fixed.len() <= 5 ==> fixed.len() <= parts.len() <= 5 && views(parts@) == fixed
                + Seq::new((parts.len() - fixed.len()) as nat, |i: int| star()),
            fixed.len() > 5 ==> views(parts@) == fixed,
        decreases 5 - parts.len(),
    {
        let mut st: Vec<char> = Vec::new();
        st.push('*');
        assert(st@ =~= star());
        let ghost before = views(parts@);
        parts.push(st);
        assert(views(parts@) =~= before.push(star()));
        assert(views(parts@) =~= fixed + Seq::new(
            (parts.len() - fixed.len()) as nat,
            |i: int| star(),
        ));
    }
    if parts.len() > 5 {
        parts.truncate(5);
        assert(views(parts@) =~= fixed.take(5));
    }
    assert(views(parts@) =~= pad5(fixed));
    let _ = try_convert_minute_interval_to_hours(&mut parts);
    let sep: Vec<char> = vec![' '];
    assert(sep@ =~= seq![' ']);
    let joined = join_chars(&parts, &sep);
    string_of(&joined)
}

/// Turns a schedule into the six-field form (leading seconds field) the
/// job scheduler expects.
pub fn to_six_field(schedule: &str) -> (r: Result<String, ScheduleError>)
    ensures
        trim(schedule@).len() > 0 ==> r is Ok && r->Ok_0@ == seq!['0', ' '] + spec_normalize(
            schedule@,
        ),
        trim(schedule@).len() == 0 ==> (r matches Err(ScheduleError::Invalid { count, expr })
            && count == 0 && expr@ == Seq::<char>::empty()),
{
    let normalized = normalize_schedule(schedule);
    let sv = chars_of(normalized.as_str());
    let parts = split_ws_chars(&sv);
    proof {
        lemma_normalized_split(schedule@);
    }
    if parts.len() == 5 {
        let mut out: Vec<char> = vec!['0', ' '];
        let sep: Vec<char> = vec![' '];
        assert(sep@ =~= seq![' ']);
        let joined = join_chars(&parts, &sep);
        append_chars(&mut out, &joined);
        Ok(string_of(&out))
    } else if parts.len() == 6 {
        let sep: Vec<char> = vec![' '];
        let joined = join_chars(&parts, &sep);
        Ok(string_of(&joined))
    } else {
        Err(ScheduleError::Invalid { count: parts.len(), expr: normalized })
    }
}

fn is_all_wildcards(schedule: &[char]) -> (r: bool)
    ensures
        r == all_wild(schedule@),
{
    let parts = split_ws_chars(schedule);
    let mut i: usize = 0;
    while i < parts.len()
        invariant
            i <= parts.len(),
            views(parts@) == split_ws(schedule@),
            forall|k: int| 0 <= k < i ==> #[trigger] split_ws(schedule@)[k] == star(),
        decreases parts.len() - i,
    {
        if !is_star(&parts[i]) {
            assert(split_ws(schedule@)[i as int] == parts@[i as int]@);
            return false;
        }
        i = i + 1;
    }
    true
}

/// Checks a user-entered schedule and returns its normalized five-field form.
pub fn validate_schedule(schedule: &str) -> (r: Result<String, ScheduleError>)
    ensures
        trim(schedule@).len() == 0 <==> r == Err::<String, ScheduleError>(ScheduleError::Required),
        trim(schedule@).len() > 0 && split_ws(trim(schedule@)).len() > 5 ==> r
            == Err::<String, ScheduleError>(
            ScheduleError::TooMany { count: split_ws(trim(schedule@)).len() as usize },
        ),
        trim(schedule@).len() > 0 && split_ws(trim(schedule@)).len() <= 5 && all_wild(
            spec_normalize(schedule@),
        ) ==> r == Err::<String, ScheduleError>(ScheduleError::TooBroad),
        trim(schedule@).len() > 0 && split_ws(trim(schedule@)).len() <= 5 && !all_wild(
            spec_normalize(schedule@),
        ) && first_step(spec_normalize(schedule@)) > 59 ==> r == Err::<String, ScheduleError>(
            ScheduleError::MinuteInterval,
        ),
        trim(schedule@).len() > 0 && split_ws(trim(schedule@)).len() <= 5 && !all_wild(
            spec_normalize(schedule@),
        ) && first_step(spec_normalize(schedule@)) <= 59 ==> r is Ok && r->Ok_0@ == spec_normalize(
            schedule@,
        ),
{
    let v = chars_of(schedule);
    let raw = trim_chars(&v);
    if raw.len() == 0 {
        return Err(ScheduleError::Required);
    }
    let fields = split_ws_chars(&raw);
    if fields.len() > 5 {
        return Err(ScheduleError::TooMany { count: fields.len() });
    }
    let raw_s = string_of(&raw);
    let normalized = normalize_schedule(raw_s.as_str());
    proof {
        lemma_trim_idem(schedule@);
        assert(spec_normalize(raw@) == spec_normalize(schedule@));
    }
    let nv = chars_of(normalized.as_str());
    if is_all_wildcards(&nv) {
        return Err(ScheduleError::TooBroad);
    }
    let words = split_ws_chars(&nv);
    if words.len() > 0 {
        assert(words@[0]@ == split_ws(nv@)[0]);
        if let Some(minutes) = parse_step_minutes(&words[0]) {
            if minutes > 59 {
                return Err(ScheduleError::MinuteInterval);
            }
        }
    }
    let _ = to_six_field(normalized.as_str());
    Ok(normalized)
}

/// The minute step of the first field of a normalized schedule (0 when the
/// field is not a step).
pub open spec fn first_step(n: Seq<char>) -> nat {
    if split_ws(n).len() > 0 && spec_step_minutes(split_ws(n)[0]) is Some {
        spec_step_minutes(split_ws(n)[0])->0 as nat
    } else {
        0
    }
}

/// Trimming twice changes nothing.
pub proof fn lemma_trim_idem(s: Seq<char>)
    ensures
        trim(trim(s)) == trim(s),
{
    lemma_trim_shape(s);
    let t = trim(s);
    if t.len() > 0 {
        assert(trim_start(t) == t);
        assert(trim_end(t) == t);
    } else {
        assert(trim_start(t) == t);
    }
}

/// The normalized form splits back into its five fields.
pub proof fn lemma_normalized_split(s: Seq<char>)
    ensures
        trim(s).len() > 0 ==> split_ws(spec_normalize(s)) == normalized_fields(s)
            && normalized_fields(s).len() == 5 && all_words(normalized_fields(s)),
        trim(s).len() == 0 ==> split_ws(spec_normalize(s)).len() == 0,
{
    if trim(s).len() > 0 {
        let ws = split_ws(trim(s));
        let fixed = ws.map_values(|p: Seq<char>| spec_fix_field(p));
        lemma_split_words(trim(s));
        assert forall|i: int| 0 <= i < fixed.len() implies is_word(#[trigger] fixed[i]) by {
            assert(is_word(ws[i]));
            lemma_fix_word(ws[i]);
        }
        let padded = pad5(fixed);
        assert forall|i: int| 0 <= i < padded.len() implies is_word(#[trigger] padded[i]) by {
            if i < fixed.len() {
                assert(padded[i] == fixed[i]);
            } else {
                assert(padded[i] == star());
            }
        }
        assert(padded.len() == 5);
        let c = convert_hours(padded);
        if converts_to_hours(padded) {
            let m = spec_step_minutes(padded[0])->0;
            lemma_decimal_word((m / 60) as nat);
            let hf = hour_field((m / 60) as nat);
            assert(is_word(hf)) by {
                if m / 60 != 1 {
                    let d = decimal((m / 60) as nat);
                    assert forall|j: int| 0 <= j < hf.len() implies !is_ws(#[trigger] hf[j]) by {
                        if j >= 2 {
                            assert(hf[j] == d[j - 2]);
                        }
                    }
                }
            }
            assert(is_word(seq!['0']));
            assert forall|i: int| 0 <= i < c.len() implies is_word(#[trigger] c[i]) by {
                if i >= 2 {
                    assert(c[i] == padded[i]);
                }
            }
        }
        assert(all_words(c));
        lemma_split_join(c);
    } else {
        assert(spec_normalize(s) =~= Seq::<char>::empty());
        assert(split_ws(Seq::<char>::empty()) =~= Seq::<Seq<char>>::empty());
    }
}

/// A word that does not start with `/` is left as it is by `spec_fix_field`.
proof fn lemma_fix_keeps(x: Seq<char>)
    requires
        is_word(x),
        x[0] != '/',
    ensures
        spec_fix_field(x) == x,
{
    lemma_trim_no_ws(x);
}

/// What `spec_fix_field` returns never starts with `/`.
proof fn lemma_fix_no_slash(part: Seq<char>)
    requires
        forall|j: int| 0 <= j < part.len() ==> !is_ws(#[trigger] part[j]),
    ensures
        spec_fix_field(part)[0] != '/',
{
    lemma_fix_word(part);
    lemma_trim_no_ws(part);
    let p = trim(part);
    if p.len() > 0 && p[0] == '/' && !starts_with(p, star_slash()) {
        assert((star_slash() + strip_all_prefix(p, seq!['/']))[0] == '*');
    }
}

/// A sequence whose first and last characters are not whitespace is its own trim.
proof fn lemma_trim_keeps(n: Seq<char>)
    requires
        n.len() > 0,
        !is_ws(n[0]),
        !is_ws(n.last()),
    ensures
        trim(n) == n,
{
    assert(trim_start(n) == n);
    assert(trim_end(n) == n);
}

/// The first character of a join is the first character of the first part.
proof fn lemma_join_ends(parts: Seq<Seq<char>>)
    requires
        parts.len() > 0,
        all_words(parts),
    ensures
        join(parts, seq![' ']).len() > 0,
        join(parts, seq![' '])[0] == parts[0][0],
        join(parts, seq![' ']).last() == parts.last().last(),
    decreases parts.len(),
{
    assert(is_word(parts[0]));
    assert(is_word(parts.last()));
    if parts.len() > 1 {
        let d = parts.drop_last();
        assert forall|i: int| 0 <= i < d.len() implies is_word(#[trigger] d[i]) by {
            assert(d[i] == parts[i]);
        }
        lemma_join_ends(d);
        let j = join(parts, seq![' ']);
        assert(j == join(d, seq![' ']) + seq![' '] + parts.last());
        assert(j[0] == join(d, seq![' '])[0]);
    }
}

/// Normalizing a normalized schedule changes nothing.
pub proof fn lemma_normalize_idempotent(s: Seq<char>)
    ensures
        spec_normalize(spec_normalize(s)) == spec_normalize(s),
{
    let n = spec_normalize(s);
    if trim(s).len() == 0 {
        assert(n =~= Seq::<char>::empty());
        assert(trim(n) =~= Seq::<char>::empty()) by {
            assert(trim_start(n) == n);
            assert(trim_end(n) == n);
        }
    } else {
        lemma_normalized_split(s);
        let ps = normalized_fields(s);
        lemma_join_ends(ps);
        assert(is_word(ps[0]));
        assert(is_word(ps.last()));
        lemma_trim_keeps(n);
        // the fields all keep their form under `spec_fix_field`
        let ws = split_ws(trim(s));
        let fixed = ws.map_values(|p: Seq<char>| spec_fix_field(p));
        let padded = pad5(fixed);
        lemma_normalized_no_slash(s);
        let refixed = ps.map_values(|p: Seq<char>| spec_fix_field(p));
        assert forall|i: int| 0 <= i < ps.len() implies #[trigger] refixed[i] == ps[i] by {
            lemma_fix_keeps(ps[i]);
        }
        assert(refixed =~= ps);
        assert(pad5(refixed) =~= ps);
        if converts_to_hours(padded) {
            assert(ps[0] == seq!['0']);
            assert(trim(ps[0]) == ps[0]) by {
                lemma_trim_no_ws(ps[0]);
            }
            assert(!starts_with(ps[0], star_slash()));
            assert(ps[0].take(1)[0] == '0');
            assert(!starts_with(ps[0], seq!['/']));
            assert(spec_step_minutes(ps[0]) is None);
            assert(!converts_to_hours(ps));
        } else {
            assert(ps == padded);
        }
        assert(convert_hours(ps) == ps);
        assert(normalized_fields(n) == ps);
    }
}

/// An accepted schedule is already normalized and converts to six fields.
pub proof fn lemma_validated_is_normal(s: Seq<char>)
    requires
        trim(s).len() > 0,
    ensures
        spec_normalize(spec_normalize(s)) == spec_normalize(s),
        trim(spec_normalize(s)).len() > 0,
{
    lemma_normalize_idempotent(s);
    lemma_normalized_split(s);
    let ps = normalized_fields(s);
    lemma_join_ends(ps);
    assert(is_word(ps[0]));
    assert(is_word(ps.last()));
    lemma_trim_keeps(spec_normalize(s));
}

/// Whether `cron::Schedule::from_str` accepts a six-field expression.
pub uninterp spec fn cron_accepts(six: Seq<char>) -> bool;

/// The first fire time of the schedule `six` after the instant `after_secs`
/// (seconds since the epoch), read in the fixed UTC offset `offset_secs`, as
/// seconds since the epoch: what `Schedule::after(..).next()` gives.
pub uninterp spec fn cron_next_fire(six: Seq<char>, after_secs: i64, offset_secs: i32) -> Option<i64>;

/// Seconds from the Unix epoch that instants handed to the schedule stay within
/// (about 31 000 years either way, inside chrono's date range).
pub const NEXT_RUN_MAX_SECS: i64 = 1_000_000_000_000;

/// Seconds a UTC offset stays under (a day), as chrono's `FixedOffset` requires.
pub const MAX_OFFSET_SECS: i32 = 86_400;

/// `cron::Schedule::from_str` on `six`, then `Schedule::after` from
/// `after_secs` in the fixed offset `offset_secs` and the first item, as
/// seconds. The crate starts its search one second after `after` and walks
/// the fields upward; in a fixed offset every local time exists once, so the
/// time found is later than `after_secs`.
#[verifier::external_body]
fn cron_next_after(six: &str, after_secs: i64, offset_secs: i32) -> (r: Result<Option<i64>, String>)
    requires
        -NEXT_RUN_MAX_SECS <= after_secs <= NEXT_RUN_MAX_SECS,
        -MAX_OFFSET_SECS < offset_secs < MAX_OFFSET_SECS,
    ensures
        r is Ok <==> cron_accepts(six@),
        r matches Ok(o) ==> o == cron_next_fire(six@, after_secs, offset_secs),
        r matches Ok(Some(t)) ==> t > after_secs,
{
    let sched = match six.parse::<::cron::Schedule>() {
        Ok(s) => s,
        Err(e) => return Err(e.to_string()),
    };
    match (chrono::FixedOffset::east_opt(offset_secs), chrono::DateTime::from_timestamp(after_secs, 0)) {
        (Some(tz), Some(dt)) => match sched.after(&dt.with_timezone(&tz)).next() {
            Some(next) => Ok(Some(next.timestamp())),
            None => Ok(None),
        },
        _ => Ok(None),
    }
}

/// Why the next fire time of a schedule could not be computed.
#[derive(Debug, Clone, PartialEq, Eq)]
pub enum NextRunError {
    /// The schedule could not be turned into six fields.
    Schedule(ScheduleError),
    /// The cron crate refused the six-field expression (its message).
    Cron(String),
}

impl NextRunError {
    /// The message shown for this error.
    pub fn message(&self, tr: &Translator) -> (r: String)
        ensures
            self matches NextRunError::Schedule(e) ==> r@ == schedule_error_text(*e, *tr),
            self matches NextRunError::Cron(t) ==> r@ == "invalid cron expression: "@ + t@,
    {
        match self {
            NextRunError::Schedule(e) => e.message(tr),
            NextRunError::Cron(t) => {
                let mut v = chars_of("invalid cron expression: ");
                append_chars(&mut v, &chars_of(t.as_str()));
                string_of(&v)
            },
        }
    }
}

/// The next time a schedule fires after `after_secs` (seconds since the
/// epoch), reading the schedule in the UTC offset `offset_secs`: the schedule
/// is turned into six fields and handed to the cron crate.
pub fn next_run_after(schedule: &str, after_secs: i64, offset_secs: i32) -> (r: Result<
    Option<i64>,
    NextRunError,
>)
    requires
        -NEXT_RUN_MAX_SECS <= after_secs <= NEXT_RUN_MAX_SECS,
        -MAX_OFFSET_SECS < offset_secs < MAX_OFFSET_SECS,
    ensures
        trim(schedule@).len() == 0 ==> (r matches Err(NextRunError::Schedule(ScheduleError::Invalid { count, expr }))
            && count == 0 && expr@ == Seq::<char>::empty()),
        trim(schedule@).len() > 0 && !cron_accepts(seq!['0', ' '] + spec_normalize(schedule@)) ==> r
            matches Err(NextRunError::Cron(_)),
        trim(schedule@).len() > 0 && cron_accepts(seq!['0', ' '] + spec_normalize(schedule@)) ==> r
            == Ok::<Option<i64>, NextRunError>(
            cron_next_fire(seq!['0', ' '] + spec_normalize(schedule@), after_secs, offset_secs),
        ),
        r matches Ok(Some(t)) ==> t > after_secs,
{
    let six = match to_six_field(schedule) {
        Ok(s) => s,
        Err(e) => return Err(NextRunError::Schedule(e)),
    };
    match cron_next_after(six.as_str(), after_secs, offset_secs) {
        Ok(next) => Ok(next),
        Err(e) => Err(NextRunError::Cron(e)),
    }
}

/// Minute step of a `*/N` field (a `/N` field is not read).
pub open spec fn star_step(field: Seq<char>) -> Option<u32> {
    let f = trim(field);
    if starts_with(f, star_slash()) {
        parse_u32(f.skip(2))
    } else {
        None
    }
}

/// No field of a normalized schedule starts with `/`.
proof fn lemma_normalized_no_slash(s: Seq<char>)
    requires
        trim(s).len() > 0,
    ensures
        forall|i: int|
            0 <= i < normalized_fields(s).len() ==> (#[trigger] normalized_fields(s)[i])[0] != '/',
{
    lemma_normalized_split(s);
    let ps = normalized_fields(s);
    let ws = split_ws(trim(s));
    let fixed = ws.map_values(|p: Seq<char>| spec_fix_field(p));
    let padded = pad5(fixed);
    lemma_split_words(trim(s));
    assert forall|i: int| 0 <= i < padded.len() implies (#[trigger] padded[i])[0] != '/' by {
        if i < fixed.len() {
            assert(is_word(ws[i]));
            lemma_fix_no_slash(ws[i]);
        }
    }
    assert forall|i: int| 0 <= i < ps.len() implies (#[trigger] ps[i])[0] != '/' by {
        if converts_to_hours(padded) && i < 2 {
            if i == 1 {
                let m = spec_step_minutes(padded[0])->0;
                assert(hour_field((m / 60) as nat)[0] == '*');
            }
        }
    }
}

/// After normalization the minute step is only ever read from a `*/N` first
/// field, so a schedule passes [`validate_schedule`] exactly when it is
/// non-blank, has at most five fields, is not all `*`, and does not start with
/// a `*/N` field with `N > 59`.
pub proof fn law_step_read_from_star_slash(s: Seq<char>)
    requires
        trim(s).len() > 0,
    ensures
        split_ws(spec_normalize(s)).len() > 0,
        first_step(spec_normalize(s)) == match star_step(split_ws(spec_normalize(s))[0]) {
            Some(m) => m as nat,
            None => 0nat,
        },
{
    lemma_normalized_split(s);
    lemma_normalized_no_slash(s);
    let w = normalized_fields(s)[0];
    assert(is_word(w));
    lemma_trim_no_ws(w);
    assert(w.take(1)[0] == w[0]);
    assert(!starts_with(w, seq!['/']));
}

/// What the cron crate gives for a task's schedule after `after`: `None` when
/// the schedule is refused, else the next fire time (if any).
pub open spec fn task_fire(t: Task, after: i64, offset_secs: i32) -> Option<Option<i64>> {
    let six = seq!['0', ' '] + spec_normalize(t.schedule@);
    if trim(t.schedule@).len() > 0 && cron_accepts(six) {
        Some(cron_next_fire(six, after, offset_secs))
    } else {
        None
    }
}

/// Going through the tasks in order: `Some(true)` at the first one that fires
/// by `deadline`, `None` at the first whose schedule is refused before that,
/// `Some(false)` when none fires by then.
pub open spec fn due_scan(ts: Seq<Task>, now: i64, deadline: int, offset_secs: i32) -> Option<bool>
    decreases ts.len(),
{
    if ts.len() == 0 {
        Some(false)
    } else {
        match task_fire(ts[0], now, offset_secs) {
            None => None,
            Some(next) => if next matches Some(t) && t <= deadline {
                Some(true)
            } else {
                due_scan(ts.drop_first(), now, deadline, offset_secs)
            },
        }
    }
}

/// Whether an enabled task fires within `within_secs` seconds after
/// `now_secs`, reading schedules in the UTC offset `offset_secs`; the first
/// refused schedule met before a due task is the error.
pub fn task_due_within(tasks: &Vec<Task>, now_secs: i64, within_secs: i64, offset_secs: i32) -> (r:
    Result<bool, NextRunError>)
    requires
        -NEXT_RUN_MAX_SECS <= now_secs <= NEXT_RUN_MAX_SECS,
        0 <= within_secs <= NEXT_RUN_MAX_SECS,
        -MAX_OFFSET_SECS < offset_secs < MAX_OFFSET_SECS,
    ensures
        r is Ok <==> due_scan(enabled_only(tasks@), now_secs, now_secs + within_secs, offset_secs)
            is Some,
        r matches Ok(b) ==> due_scan(enabled_only(tasks@), now_secs, now_secs + within_secs, offset_secs)
            == Some(b),
        some_due(enabled_only(tasks@), now_secs, now_secs + within_secs, offset_secs) <==> r == Ok::<
            bool,
            NextRunError,
        >(true),
        none_due(enabled_only(tasks@), now_secs, now_secs + within_secs, offset_secs) <==> r == Ok::<
            bool,
            NextRunError,
        >(false),
        some_refused(enabled_only(tasks@), now_secs, now_secs + within_secs, offset_secs) <==> r is Err,
{
    proof {
        law_due_within(enabled_only(tasks@), now_secs, now_secs + within_secs, offset_secs);
    }
    let ts = enabled_tasks(tasks);
    let deadline = now_secs + within_secs;
    let ghost all = ts@;
    let mut i: usize = 0;
    assert(all.skip(0) =~= all);
    while i < ts.len()
        invariant
            i <= ts@.len(),
            all == ts@,
            all == enabled_only(tasks@),
            -NEXT_RUN_MAX_SECS <= now_secs <= NEXT_RUN_MAX_SECS,
            -MAX_OFFSET_SECS < offset_secs < MAX_OFFSET_SECS,
            deadline == now_secs + within_secs,
            due_scan(all.skip(i as int), now_secs, deadline as int, offset_secs) == due_scan(
                all,
                now_secs,
                deadline as int,
                offset_secs,
            ),
        decreases ts@.len() - i,
    {
        let ghost rest = all.skip(i as int);
        assert(rest[0] == ts@[i as int]);
        assert(rest.drop_first() =~= all.skip(i + 1));
        match next_run_after(ts[i].schedule.as_str(), now_secs, offset_secs) {
            Err(e) => {
                proof {
                    law_due_within(all, now_secs, now_secs + within_secs, offset_secs);
                }
                return Err(e);
            },
            Ok(Some(t)) => {
                if t <= deadline {
                    proof {
                        law_due_within(all, now_secs, now_secs + within_secs, offset_secs);
                    }
                    return Ok(true);
                }
            },
            Ok(None) => {},
        }
        i = i + 1;
    }
    assert(all.skip(i as int) =~= Seq::<Task>::empty());
    Ok(false)
}

/// A task result that fires by `deadline`.
pub open spec fn fires_by(o: Option<Option<i64>>, deadline: int) -> bool {
    o matches Some(Some(t)) && t <= deadline
}

/// Task `i` fires by `deadline`, and no task before it has a refused schedule.
pub open spec fn due_at(ts: Seq<Task>, i: int, now: i64, deadline: int, offset_secs: i32) -> bool {
    &&& 0 <= i < ts.len()
    &&& forall|j: int| 0 <= j < i ==> #[trigger] task_fire(ts[j], now, offset_secs) is Some
    &&& fires_by(task_fire(ts[i], now, offset_secs), deadline)
}

/// Task `i` has a refused schedule, and every task before it is accepted and
/// does not fire by `deadline`.
pub open spec fn refused_at(ts: Seq<Task>, i: int, now: i64, deadline: int, offset_secs: i32) -> bool {
    &&& 0 <= i < ts.len()
    &&& task_fire(ts[i], now, offset_secs) is None
    &&& forall|j: int|
        0 <= j < i ==> #[trigger] task_fire(ts[j], now, offset_secs) is Some && !fires_by(
            task_fire(ts[j], now, offset_secs),
            deadline,
        )
}

/// Some task fires by `deadline` with no refused schedule before it.
pub open spec fn some_due(ts: Seq<Task>, now: i64, deadline: int, offset_secs: i32) -> bool {
    exists|i: int| due_at(ts, i, now, deadline, offset_secs)
}

/// Some task has a refused schedule before any task fires by `deadline`.
pub open spec fn some_refused(ts: Seq<Task>, now: i64, deadline: int, offset_secs: i32) -> bool {
    exists|i: int| refused_at(ts, i, now, deadline, offset_secs)
}

/// Every task is accepted and none fires by `deadline`.
pub open spec fn none_due(ts: Seq<Task>, now: i64, deadline: int, offset_secs: i32) -> bool {
    forall|i: int|
        0 <= i < ts.len() ==> #[trigger] task_fire(ts[i], now, offset_secs) is Some && !fires_by(
            task_fire(ts[i], now, offset_secs),
            deadline,
        )
}

/// A task that fires by the deadline, with no refused schedule before it,
/// makes the answer "due"; "not due" comes only when every task is accepted
/// and none fires by the deadline; an error comes only from a refused
/// schedule before any due task.
pub proof fn law_due_within(ts: Seq<Task>, now: i64, deadline: int, offset_secs: i32)
    ensures
        (exists|i: int| due_at(ts, i, now, deadline, offset_secs)) <==> due_scan(
            ts,
            now,
            deadline,
            offset_secs,
        ) == Some(true),
        none_due(ts, now, deadline, offset_secs) <==> due_scan(ts, now, deadline, offset_secs)
            == Some(false),
        (exists|i: int| refused_at(ts, i, now, deadline, offset_secs)) <==> due_scan(
            ts,
            now,
            deadline,
            offset_secs,
        ) is None,
    decreases ts.len(),
{
    if ts.len() == 0 {
        assert(due_scan(ts, now, deadline, offset_secs) == Some(false));
    } else {
        let rest = ts.drop_first();
        law_due_within(rest, now, deadline, offset_secs);
        let f0 = task_fire(ts[0], now, offset_secs);
        assert forall|j: int| 0 <= j < rest.len() implies #[trigger] rest[j] == ts[j + 1] by {}
        // Moving a witness between `ts` and `rest`.
        assert forall|i: int| #[trigger] due_at(rest, i, now, deadline, offset_secs) && f0 is Some
            implies due_at(ts, i + 1, now, deadline, offset_secs) by {
            assert forall|j: int| 0 <= j < i + 1 implies #[trigger] task_fire(ts[j], now, offset_secs)
                is Some by {
                if j > 0 {
                    assert(ts[j] == rest[j - 1]);
                }
            }
        }
        assert forall|i: int| #[trigger] due_at(ts, i, now, deadline, offset_secs) && i > 0
            implies due_at(rest, i - 1, now, deadline, offset_secs) by {
            assert forall|j: int| 0 <= j < i - 1 implies #[trigger] task_fire(rest[j], now, offset_secs)
                is Some by {
                assert(task_fire(ts[j + 1], now, offset_secs) is Some);
            }
        }
        assert forall|i: int|
            #[trigger] refused_at(rest, i, now, deadline, offset_secs) && f0 is Some && !fires_by(
                f0,
                deadline,
            ) implies refused_at(ts, i + 1, now, deadline, offset_secs) by {
            assert forall|j: int| 0 <= j < i + 1 implies #[trigger] task_fire(ts[j], now, offset_secs)
                is Some && !fires_by(task_fire(ts[j], now, offset_secs), deadline) by {
                if j > 0 {
                    assert(ts[j] == rest[j - 1]);
                }
            }
        }
        assert forall|i: int| #[trigger] refused_at(ts, i, now, deadline, offset_secs) && i > 0
            implies refused_at(rest, i - 1, now, deadline, offset_secs) by {
            assert forall|j: int| 0 <= j < i - 1 implies #[trigger] task_fire(rest[j], now, offset_secs)
                is Some && !fires_by(task_fire(rest[j], now, offset_secs), deadline) by {
                assert(task_fire(ts[j + 1], now, offset_secs) is Some);
            }
        }
        if f0 is None {
            assert(refused_at(ts, 0, now, deadline, offset_secs));
            assert forall|i: int| !due_at(ts, i, now, deadline, offset_secs) by {
                if due_at(ts, i, now, deadline, offset_secs) && i > 0 {
                    assert(task_fire(ts[0], now, offset_secs) is Some);
                }
            }
            if none_due(ts, now, deadline, offset_secs) {
                assert(task_fire(ts[0], now, offset_secs) is Some);
            }
        } else if fires_by(f0, deadline) {
            assert(due_at(ts, 0, now, deadline, offset_secs));
            assert forall|i: int| !refused_at(ts, i, now, deadline, offset_secs) by {
                if refused_at(ts, i, now, deadline, offset_secs) && i > 0 {
                    assert(!fires_by(task_fire(ts[0], now, offset_secs), deadline));
                }
            }
            if none_due(ts, now, deadline, offset_secs) {
                assert(!fires_by(task_fire(ts[0], now, offset_secs), deadline));
            }
        } else {
            assert(!due_at(ts, 0, now, deadline, offset_secs));
            assert(!refused_at(ts, 0, now, deadline, offset_secs));
            if exists|i: int| due_at(ts, i, now, deadline, offset_secs) {
                let i = choose|i: int| due_at(ts, i, now, deadline, offset_secs);
                assert(due_at(rest, i - 1, now, deadline, offset_secs));
            }
            if exists|i: int| due_at(rest, i, now, deadline, offset_secs) {
                let i = choose|i: int| due_at(rest, i, now, deadline, offset_secs);
                assert(due_at(ts, i + 1, now, deadline, offset_secs));
            }
            if exists|i: int| refused_at(ts, i, now, deadline, offset_secs) {
                let i = choose|i: int| refused_at(ts, i, now, deadline, offset_secs);
                assert(refused_at(rest, i - 1, now, deadline, offset_secs));
            }
            if exists|i: int| refused_at(rest, i, now, deadline, offset_secs) {
                let i = choose|i: int| refused_at(rest, i, now, deadline, offset_secs);
                assert(refused_at(ts, i + 1, now, deadline, offset_secs));
            }
            if none_due(rest, now, deadline, offset_secs) {
                assert forall|i: int| 0 <= i < ts.len() implies #[trigger] task_fire(ts[i], now, offset_secs)
                    is Some && !fires_by(task_fire(ts[i], now, offset_secs), deadline) by {
                    if i > 0 {
                        assert(ts[i] == rest[i - 1]);
                        assert(task_fire(rest[i - 1], now, offset_secs) is Some);
                    }
                }
            }
            if none_due(ts, now, deadline, offset_secs) {
                assert forall|i: int| 0 <= i < rest.len() implies #[trigger] task_fire(rest[i], now, offset_secs)
                    is Some && !fires_by(task_fire(rest[i], now, offset_secs), deadline) by {
                    assert(task_fire(ts[i + 1], now, offset_secs) is Some);
                }
            }
        }
    }
}

} // verus!
