//! UI localization: per-language catalogs of `key → text`, the current
//! language, lookups with an English fallback and `{name}` placeholders.
use vstd::prelude::*;

use crate::text::{
    append_chars, ascii_lower, ascii_lower_char, chars_eq, chars_of, lower_chars, replace_all, starts_with, starts_with_at,
    str_eq, string_of, trim, trim_chars,
};

verus! {

/// The texts of one language.
#[derive(Debug, Clone)]
pub struct Catalog {
    pub lang: String,
    pub entries: Vec<(String, String)>,
}

/// The catalogs and the language that texts are currently shown in.
#[derive(Debug, Clone)]
pub struct Translator {
    current: String,
    catalogs: Vec<Catalog>,
}

pub type EntriesView = Seq<(Seq<char>, Seq<char>)>;

pub open spec fn entries_view(e: Seq<(String, String)>) -> EntriesView {
    e.map_values(|p: (String, String)| (p.0@, p.1@))
}

pub open spec fn catalogs_view(c: Seq<Catalog>) -> Seq<(Seq<char>, EntriesView)> {
    c.map_values(|k: Catalog| (k.lang@, entries_view(k.entries@)))
}

/// The text of the first entry for `key`.
pub open spec fn find_entry(entries: EntriesView, key: Seq<char>) -> Option<Seq<char>>
    decreases entries.len(),
{
    if entries.len() == 0 {
        None
    } else if entries[0].0 == key {
        Some(entries[0].1)
    } else {
        find_entry(entries.drop_first(), key)
    }
}

/// The text for `key` in the first catalog of `lang`.
pub open spec fn find_text(
    cats: Seq<(Seq<char>, EntriesView)>,
    lang: Seq<char>,
    key: Seq<char>,
) -> Option<Seq<char>>
    decreases cats.len(),
{
    if cats.len() == 0 {
        None
    } else if cats[0].0 == lang {
        find_entry(cats[0].1, key)
    } else {
        find_text(cats.drop_first(), lang, key)
    }
}

pub open spec fn en() -> Seq<char> {
    seq!['e', 'n']
}

/// The text for `key`: the current language, then English, then the key itself.
pub open spec fn spec_t(cats: Seq<(Seq<char>, EntriesView)>, lang: Seq<char>, key: Seq<char>) -> Seq<
    char,
> {
    match find_text(cats, lang, key) {
        Some(v) => v,
        None => match find_text(cats, en(), key) {
            Some(v) => v,
            None => key,
        },
    }
}

/// `{name}` for a placeholder name.
pub open spec fn placeholder(name: Seq<char>) -> Seq<char> {
    seq!['{'] + name + seq!['}']
}

/// Each `{name}` replaced by its value, the pairs applied in order.
pub open spec fn fill(s: Seq<char>, reps: Seq<(Seq<char>, Seq<char>)>) -> Seq<char>
    decreases reps.len(),
{
    if reps.len() == 0 {
        s
    } else {
        fill(replace_all(s, placeholder(reps[0].0), reps[0].1), reps.drop_first())
    }
}

pub open spec fn reps_view(r: Seq<(&str, &str)>) -> Seq<(Seq<char>, Seq<char>)> {
    r.map_values(|p: (&str, &str)| (p.0@, p.1@))
}

/// The supported language a user-entered code stands for (English when unknown).
///
/// Letters are compared after ASCII lowercasing: every name matched here is
/// ASCII, and no non-ASCII character lowercases to one of its letters, so
/// this is the same as comparing after full Unicode lowercasing.
pub open spec fn spec_normalize_lang(lang: Seq<char>) -> Seq<char> {
    let l = ascii_lower(trim(lang));
    if l == seq!['r', 'u'] || l == seq!['r', 'u', '-', 'r', 'u'] {
        seq!['r', 'u']
    } else if l == seq!['d', 'e'] || l == seq!['d', 'e', '-', 'd', 'e'] {
        seq!['d', 'e']
    } else if l == seq!['f', 'r'] || l == seq!['f', 'r', '-', 'f', 'r'] {
        seq!['f', 'r']
    } else if l == seq!['z', 'h'] || l == seq!['z', 'h', '-', 'c', 'n'] || l == seq![
        'z',
        'h',
        '-',
        'h',
        'a',
        'n',
        's',
    ] || l == seq!['z', 'h', '_', 'c', 'n'] {
        seq!['z', 'h', '-', 'c', 'n']
    } else {
        en()
    }
}

impl Translator {
    pub closed spec fn lang(&self) -> Seq<char> {
        self.current@
    }

    pub closed spec fn cats(&self) -> Seq<(Seq<char>, EntriesView)> {
        catalogs_view(self.catalogs@)
    }

    /// The text `t(key)` gives with this translator.
    pub open spec fn text(&self, key: Seq<char>) -> Seq<char> {
        spec_t(self.cats(), self.lang(), key)
    }

    /// No catalogs; English selected.
    pub fn new() -> (r: Self)
        ensures
            r.lang() == en(),
            r.cats() == Seq::<(Seq<char>, EntriesView)>::empty(),
    {
        let v: Vec<char> = vec!['e', 'n'];
        assert(v@ =~= en());
        let r = Translator { current: string_of(&v), catalogs: Vec::new() };
        assert(catalogs_view(r.catalogs@) =~= Seq::<(Seq<char>, EntriesView)>::empty());
        r
    }

    /// The given catalogs; English selected.
    pub fn with_catalogs(catalogs: Vec<Catalog>) -> (r: Self)
        ensures
            r.lang() == en(),
            r.cats() == catalogs_view(catalogs@),
    {
        let v: Vec<char> = vec!['e', 'n'];
        assert(v@ =~= en());
        Translator { current: string_of(&v), catalogs }
    }

    pub fn current_language(&self) -> (r: String)
        ensures
            r@ == self.lang(),
    {
        self.current.clone()
    }

    /// Selects the language a code stands for.
    pub fn set_locale(&mut self, lang: &str)
        ensures
            final(self).lang() == spec_normalize_lang(lang@),
            final(self).cats() == old(self).cats(),
    {
        self.current = normalize_lang(lang);
    }

    /// The text for `key` in the catalog of `lang`.
    pub fn lookup(&self, lang: &str, key: &str) -> (r: Option<String>)
        ensures
            r matches Some(v) ==> find_text(self.cats(), lang@, key@) == Some(v@),
            r is None ==> find_text(self.cats(), lang@, key@) is None,
    {
        let lv = chars_of(lang);
        let kv = chars_of(key);
        self.lookup_chars(&lv, &kv)
    }

    fn lookup_chars(&self, lang: &[char], key: &[char]) -> (r: Option<String>)
        ensures
            r matches Some(v) ==> find_text(self.cats(), lang@, key@) == Some(v@),
            r is None ==> find_text(self.cats(), lang@, key@) is None,
    {
        let ghost cats = self.cats();
        let mut i: usize = 0;
        assert(cats.skip(0) =~= cats);
        while i < self.catalogs.len()
            invariant
                i <= self.catalogs.len(),
                cats == catalogs_view(self.catalogs@),
                cats == self.cats(),
                find_text(cats, lang@, key@) == find_text(cats.skip(i as int), lang@, key@),
            decreases self.catalogs.len() - i,
        {
            let c = &self.catalogs[i];
            let cl = chars_of(c.lang.as_str());
            assert(cats.skip(i as int)[0] == cats[i as int]);
            assert(cats.skip(i as int).drop_first() =~= cats.skip(i + 1));
            if chars_eq(&cl, lang) {
                let ghost ents = entries_view(c.entries@);
                assert(cats[i as int].1 == ents);
                assert(find_text(cats, lang@, key@) == find_entry(ents, key@));
                let mut j: usize = 0;
                assert(ents.skip(0) =~= ents);
                while j < c.entries.len()
                    invariant
                        j <= c.entries.len(),
                        ents == entries_view(c.entries@),
                        find_entry(ents, key@) == find_entry(ents.skip(j as int), key@),
                        find_text(cats, lang@, key@) == find_entry(ents, key@),
                        cats == self.cats(),
                    decreases c.entries.len() - j,
                {
                    let ek = chars_of(c.entries[j].0.as_str());
                    assert(ents.skip(j as int)[0] == ents[j as int]);
                    assert(ents.skip(j as int).drop_first() =~= ents.skip(j + 1));
                    if chars_eq(&ek, key) {
                        assert(ents[j as int] == (c.entries@[j as int].0@, c.entries@[j as int].1@));
                        assert(ents[j as int].0 == key@);
                        assert(find_entry(ents.skip(j as int), key@) == Some(ents[j as int].1));
                        let found = c.entries[j].1.clone();
                        assert(found@ == ents[j as int].1);
                        assert(find_text(cats, lang@, key@) == Some(found@));
                        assert(cats == self.cats());
                        return Some(found);
                    }
                    j = j + 1;
                }
                return None;
            }
            i = i + 1;
        }
        None
    }

    /// Translate key; fallback en → key itself.
    pub fn t(&self, key: &str) -> (r: String)
        ensures
            r@ == self.text(key@),
    {
        let lang = self.current.clone();
        match self.lookup(lang.as_str(), key) {
            Some(v) => v,
            None => {
                let e: Vec<char> = vec!['e', 'n'];
                assert(e@ =~= en());
                let es = string_of(&e);
                match self.lookup(es.as_str(), key) {
                    Some(v) => v,
                    None => {
                        let k = chars_of(key);
                        string_of(&k)
                    },
                }
            },
        }
    }

    /// Replace `{name}` placeholders in translated string.
    pub fn t_fmt(&self, key: &str, replacements: &[(&str, &str)]) -> (r: String)
        ensures
            r@ == fill(self.text(key@), reps_view(replacements@)),
    {
        let s = self.t(key);
        let mut cur = chars_of(s.as_str());
        let ghost reps = reps_view(replacements@);
        let mut i: usize = 0;
        assert(reps.skip(0) =~= reps);
        while i < replacements.len()
            invariant
                i <= replacements.len(),
                reps == reps_view(replacements@),
                fill(self.text(key@), reps) == fill(cur@, reps.skip(i as int)),
            decreases replacements.len() - i,
        {
            let (name, value) = replacements[i];
            let mut pat: Vec<char> = vec!['{'];
            let nv = chars_of(name);
            crate::text::append_chars(&mut pat, &nv);
            pat.push('}');
            assert(pat@ =~= placeholder(name@));
            let vv = chars_of(value);
            assert(reps.skip(i as int)[0] == reps[i as int]);
            assert(reps.skip(i as int).drop_first() =~= reps.skip(i + 1));
            cur = replace_chars(&cur, &pat, &vv);
            i = i + 1;
        }
        assert(reps.skip(replacements.len() as int) =~= Seq::<(Seq<char>, Seq<char>)>::empty());
        string_of(&cur)
    }

    /// "on" / "off" in the current language.
    pub fn state_on_off(&self, enabled: bool) -> (r: String)
        ensures
            enabled ==> r@ == self.text("state.on"@),
            !enabled ==> r@ == self.text("state.off"@),
    {
        if enabled {
            self.t("state.on")
        } else {
            self.t("state.off")
        }
    }

    /// Encryption state of a task: not applicable, on, or off.
    pub fn encrypt_state(&self, on: bool, na: bool) -> (r: String)
        ensures
            na ==> r@ == self.text("encrypt.na"@),
            !na && on ==> r@ == self.text("encrypt.on"@),
            !na && !on ==> r@ == self.text("encrypt.off"@),
    {
        if na {
            self.t("encrypt.na")
        } else if on {
            self.t("encrypt.on")
        } else {
            self.t("encrypt.off")
        }
    }

    /// The name of a language, in the current language.
    pub fn language_display_name(&self, lang_code: &str) -> (r: String)
        ensures
            r@ == self.text(language_key(spec_normalize_lang(lang_code@))),
    {
        let n = normalize_lang(lang_code);
        let nv = chars_of(n.as_str());
        proof {
            reveal_strlit("lang.ru");
            reveal_strlit("lang.de");
            reveal_strlit("lang.fr");
            reveal_strlit("lang.zh_cn");
            reveal_strlit("lang.en");
        }
        let ru: Vec<char> = vec!['r', 'u'];
        let de: Vec<char> = vec!['d', 'e'];
        let fr: Vec<char> = vec!['f', 'r'];
        let zh: Vec<char> = vec!['z', 'h', '-', 'c', 'n'];
        assert(ru@ =~= seq!['r', 'u']);
        assert(de@ =~= seq!['d', 'e']);
        assert(fr@ =~= seq!['f', 'r']);
        assert(zh@ =~= seq!['z', 'h', '-', 'c', 'n']);
        if chars_eq(&nv, &ru) {
            self.t("lang.ru")
        } else if chars_eq(&nv, &de) {
            self.t("lang.de")
        } else if chars_eq(&nv, &fr) {
            self.t("lang.fr")
        } else if chars_eq(&nv, &zh) {
            self.t("lang.zh_cn")
        } else {
            self.t("lang.en")
        }
    }
}

/// The catalog key of a language's display name.
pub open spec fn language_key(code: Seq<char>) -> Seq<char> {
    if code == seq!['r', 'u'] {
        "lang.ru"@
    } else if code == seq!['d', 'e'] {
        "lang.de"@
    } else if code == seq!['f', 'r'] {
        "lang.fr"@
    } else if code == seq!['z', 'h', '-', 'c', 'n'] {
        "lang.zh_cn"@
    } else {
        "lang.en"@
    }
}

fn is_one_of(l: &[char], a: &[char], b: &[char]) -> (r: bool)
    ensures
        r == (l@ == a@ || l@ == b@),
{
    chars_eq(l, a) || chars_eq(l, b)
}

/// The supported language a user-entered code stands for.
pub fn normalize_lang(lang: &str) -> (r: String)
    ensures
        r@ == spec_normalize_lang(lang@),
{
    let v = chars_of(lang);
    let t = trim_chars(&v);
    let l = lower_chars(&t);
    let ru: Vec<char> = vec!['r', 'u'];
    let ru2: Vec<char> = vec!['r', 'u', '-', 'r', 'u'];
    let de: Vec<char> = vec!['d', 'e'];
    let de2: Vec<char> = vec!['d', 'e', '-', 'd', 'e'];
    let fr: Vec<char> = vec!['f', 'r'];
    let fr2: Vec<char> = vec!['f', 'r', '-', 'f', 'r'];
    let zh: Vec<char> = vec!['z', 'h'];
    let zh2: Vec<char> = vec!['z', 'h', '-', 'c', 'n'];
    let zh3: Vec<char> = vec!['z', 'h', '-', 'h', 'a', 'n', 's'];
    let zh4: Vec<char> = vec!['z', 'h', '_', 'c', 'n'];
    let english: Vec<char> = vec!['e', 'n'];
    assert(ru@ =~= seq!['r', 'u']);
    assert(ru2@ =~= seq!['r', 'u', '-', 'r', 'u']);
    assert(de@ =~= seq!['d', 'e']);
    assert(de2@ =~= seq!['d', 'e', '-', 'd', 'e']);
    assert(fr@ =~= seq!['f', 'r']);
    assert(fr2@ =~= seq!['f', 'r', '-', 'f', 'r']);
    assert(zh@ =~= seq!['z', 'h']);
    assert(zh2@ =~= seq!['z', 'h', '-', 'c', 'n']);
    assert(zh3@ =~= seq!['z', 'h', '-', 'h', 'a', 'n', 's']);
    assert(zh4@ =~= seq!['z', 'h', '_', 'c', 'n']);
    assert(english@ =~= en());
    if is_one_of(&l, &ru, &ru2) {
        string_of(&ru)
    } else if is_one_of(&l, &de, &de2) {
        string_of(&de)
    } else if is_one_of(&l, &fr, &fr2) {
        string_of(&fr)
    } else if is_one_of(&l, &zh, &zh2) || is_one_of(&l, &zh3, &zh4) {
        string_of(&zh2)
    } else {
        string_of(&english)
    }
}

/// Every occurrence of `pat` (non-empty) in `s` replaced by `rep`.
pub fn replace_chars(s: &[char], pat: &[char], rep: &[char]) -> (r: Vec<char>)
    requires
        pat.len() > 0,
    ensures
        r@ == replace_all(s@, pat@, rep@),
{
    let mut out: Vec<char> = Vec::new();
    let mut i: usize = 0;
    assert(s@.skip(0) =~= s@);
    while i < s.len()
        invariant
            i <= s.len(),
            pat.len() > 0,
            replace_all(s@, pat@, rep@) == out@ + replace_all(s@.skip(i as int), pat@, rep@),
        decreases s.len() - i,
    {
        let ghost rest = s@.skip(i as int);
        if starts_with_at(s, i, pat) {
            crate::text::append_chars(&mut out, rep);
            assert(rest.skip(pat.len() as int) =~= s@.skip(i + pat.len()));
            i = i + pat.len();
        } else {
            out.push(s[i]);
            assert(rest[0] == s@[i as int]);
            assert(rest.drop_first() =~= s@.skip(i + 1));
            assert(out@ =~= (out@.drop_last() + seq![s@[i as int]]));
            i = i + 1;
        }
    }
    assert(s@.skip(i as int) =~= Seq::<char>::empty());
    assert(out@ + Seq::<char>::empty() =~= out@);
    out
}

/// Setting key under which the chosen language is stored.
pub const SETTING_LANGUAGE: &'static str = "language";

/// The language used until one is chosen.
pub const DEFAULT_LANGUAGE: &'static str = "en";

/// The language to start in: the stored setting unless it is missing or blank,
/// else [`DEFAULT_LANGUAGE`].
pub fn startup_language(setting: Option<&str>) -> (r: String)
    ensures
        setting matches Some(s) && trim(s@).len() > 0 ==> r@ == setting->0@,
        !(setting matches Some(s) && trim(s@).len() > 0) ==> r@ == DEFAULT_LANGUAGE@,
{
    match setting {
        Some(s) => {
            if trim_chars(&chars_of(s)).len() > 0 {
                return string_of(&chars_of(s));
            }
        },
        None => {},
    }
    string_of(&chars_of(DEFAULT_LANGUAGE))
}

/// The supported languages: code and the key of their display name, in menu order.
pub const SUPPORTED: [(&'static str, &'static str); 5] = [
    ("en", "lang.en"),
    ("ru", "lang.ru"),
    ("de", "lang.de"),
    ("fr", "lang.fr"),
    ("zh-cn", "lang.zh_cn"),
];

/// The language menu: each supported language's name, the current one marked
/// with ` *`, and the position of the current one (the first when it is not
/// supported).
pub fn language_menu_items(tr: &Translator) -> (r: (Vec<String>, usize))
    ensures
        r.0@.len() == 5,
        forall|i: int|
            0 <= i < 5 ==> (#[trigger] r.0@[i])@ == if SUPPORTED@[i].0@ == tr.lang() {
                tr.text(SUPPORTED@[i].1@) + " *"@
            } else {
                tr.text(SUPPORTED@[i].1@)
            },
        r.1 < 5,
        (exists|i: int| 0 <= i < 5 && SUPPORTED@[i].0@ == tr.lang()) ==> SUPPORTED@[r.1 as int].0@
            == tr.lang() && forall|j: int| 0 <= j < r.1 ==> SUPPORTED@[j].0@ != tr.lang(),
        (forall|i: int| 0 <= i < 5 ==> SUPPORTED@[i].0@ != tr.lang()) ==> r.1 == 0,
{
    let current = tr.current_language();
    let mut items: Vec<String> = Vec::new();
    let mut default: usize = 0;
    let mut found = false;
    let mut i: usize = 0;
    while i < 5
        invariant
            i <= 5,
            current@ == tr.lang(),
            items@.len() == i,
            forall|k: int|
                0 <= k < i ==> (#[trigger] items@[k])@ == if SUPPORTED@[k].0@ == tr.lang() {
                    tr.text(SUPPORTED@[k].1@) + " *"@
                } else {
                    tr.text(SUPPORTED@[k].1@)
                },
            default < 5,
            found ==> SUPPORTED@[default as int].0@ == tr.lang() && forall|j: int|
                0 <= j < default ==> SUPPORTED@[j].0@ != tr.lang(),
            !found ==> default == 0 && forall|j: int| 0 <= j < i ==> SUPPORTED@[j].0@ != tr.lang(),
        decreases 5 - i,
    {
        let (code, key) = SUPPORTED[i];
        let name = tr.t(key);
        if str_eq(code, current.as_str()) {
            let mut v = chars_of(name.as_str());
            append_chars(&mut v, &chars_of(" *"));
            items.push(string_of(&v));
            if !found {
                found = true;
                default = i;
            }
        } else {
            items.push(name);
        }
        i = i + 1;
    }
    (items, default)
}

} // verus!
