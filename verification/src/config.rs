//! Decryption settings (`decrypt.toml`): profiles (connection slug →
//! password), backups root, last browsed folder, output folder.
use vstd::prelude::*;

use rand::Rng;

use crate::strmap::{seq_lt, StrMap};
use crate::text::{
    append_chars, chars_of, decimal, decimal_chars, join, join_chars, string_of, trim, trim_chars,
};
use crate::text::push_char;

verus! {

/// Profiles (slug → password) and folders of the decryption tool.
#[derive(Debug)]
pub struct DecryptConfig {
    /// Per-connection slug → encrypt_password (same as on backup-server).
    pub profiles: StrMap<String>,
    /// Root backups directory (e.g. client `data/backups`).
    pub path: String,
    /// Last folder opened in the browser (saved on exit / navigation).
    pub last_path: String,
    /// Where to write decrypted plaintext. Empty = next to the `.aes` file.
    pub output_path: String,
}

/// The password a profile map holds for `slug`, if it holds a non-empty one.
pub open spec fn spec_profile_password(m: Map<Seq<char>, String>, slug: Seq<char>) -> Option<
    Seq<char>,
> {
    if m.dom().contains(slug) && m[slug]@.len() > 0 {
        Some(m[slug]@)
    } else {
        None
    }
}

/// Whether some profile has a non-empty password.
pub open spec fn spec_has_any_password(m: Map<Seq<char>, String>) -> bool {
    exists|k: Seq<char>| m.dom().contains(k) && #[trigger] m[k]@.len() > 0
}

pub open spec fn hint_or(s: Seq<char>, empty_text: Seq<char>) -> Seq<char> {
    if trim(s).len() == 0 {
        empty_text
    } else {
        trim(s)
    }
}

impl DecryptConfig {
    /// No profiles and no folders.
    pub fn empty() -> (r: Self)
        ensures
            r.profiles.map() == Map::<Seq<char>, String>::empty(),
            r.path@ == Seq::<char>::empty(),
            r.last_path@ == Seq::<char>::empty(),
            r.output_path@ == Seq::<char>::empty(),
    {
        DecryptConfig {
            profiles: StrMap::new(),
            path: String::new(),
            last_path: String::new(),
            output_path: String::new(),
        }
    }

    /// Whether some connection has a password.
    pub fn has_any_password(&self) -> (r: bool)
        ensures
            r == spec_has_any_password(self.profiles.map()),
    {
        let n = self.profiles.key_count();
        let mut i: usize = 0;
        while i < n
            invariant
                i <= n,
                n == self.profiles.keys().len(),
                forall|k: Seq<char>| #[trigger]
                    self.profiles.map().dom().contains(k) <==> self.profiles.keys().contains(k),
                forall|j: int|
                    0 <= j < i ==> (#[trigger] self.profiles.map()[self.profiles.keys()[j]])@.len()
                        == 0,
            decreases n - i,
        {
            let p = self.profiles.value_at(i);
            if !p.as_str().is_empty() {
                proof {
                    let k = self.profiles.keys()[i as int];
                    assert(self.profiles.map().dom().contains(k));
                }
                return true;
            }
            i = i + 1;
        }
        proof {
            assert forall|k: Seq<char>|
                self.profiles.map().dom().contains(k) implies #[trigger] self.profiles.map()[k]@.len()
                == 0 by {
                let j = choose|j: int| 0 <= j < self.profiles.keys().len() && self.profiles.keys()[j] == k;
                assert(self.profiles.map()[self.profiles.keys()[j]]@.len() == 0);
            }
        }
        false
    }

    /// A password is set and the backups root is known.
    pub fn is_ready(&self) -> (r: bool)
        ensures
            r == (spec_has_any_password(self.profiles.map()) && trim(self.path@).len() > 0),
    {
        if !self.has_any_password() {
            return false;
        }
        let pv = chars_of(self.path.as_str());
        let t = trim_chars(&pv);
        t.len() > 0
    }

    /// The connection slugs, in ascending order.
    pub fn profile_slugs(&self) -> (r: Vec<String>)
        ensures
            r@.map_values(|s: String| s@) == self.profiles.keys(),
            forall|i: int, j: int|
                0 <= i < j < r@.len() ==> seq_lt(#[trigger] r@[i]@, #[trigger] r@[j]@),
            forall|k: Seq<char>| #[trigger]
                self.profiles.map().dom().contains(k) <==> self.profiles.keys().contains(k),
    {
        let r = self.profiles.key_strings();
        proof {
            assert forall|i: int, j: int| 0 <= i < j < r@.len() implies seq_lt(
                #[trigger] r@[i]@,
                #[trigger] r@[j]@,
            ) by {
                assert(r@.map_values(|s: String| s@)[i] == r@[i]@);
                assert(r@.map_values(|s: String| s@)[j] == r@[j]@);
            }
        }
        r
    }

    /// The password of a connection, unless it is missing or empty.
    pub fn profile_password(&self, slug: &str) -> (r: Option<&str>)
        ensures
            r matches Some(p) ==> spec_profile_password(self.profiles.map(), slug@) == Some(p@),
            r is None ==> spec_profile_password(self.profiles.map(), slug@) is None,
    {
        match self.profiles.get(slug) {
            Some(p) => if p.as_str().is_empty() {
                None
            } else {
                Some(p.as_str())
            },
            None => None,
        }
    }

    /// Sets (or replaces) the password of a connection.
    pub fn set_profile_password(&mut self, slug: &str, password: String)
        ensures
            final(self).profiles.map() == old(self).profiles.map().insert(slug@, password),
            final(self).path == old(self).path,
            final(self).last_path == old(self).last_path,
            final(self).output_path == old(self).output_path,
    {
        let k = string_of(&chars_of(slug));
        self.profiles.insert(k, password);
    }

    /// Forgets a connection; whether it was there.
    pub fn remove_profile(&mut self, slug: &str) -> (r: bool)
        ensures
            final(self).profiles.map() == old(self).profiles.map().remove(slug@),
            r == old(self).profiles.map().dom().contains(slug@),
            final(self).path == old(self).path,
            final(self).last_path == old(self).last_path,
            final(self).output_path == old(self).output_path,
    {
        self.profiles.remove(slug).is_some()
    }

    /// `(none)`, or how many connections there are and their names.
    pub fn profiles_hint(&self) -> (r: String)
        ensures
            self.profiles.keys().len() == 0 ==> r@ == "(none)"@,
            self.profiles.keys().len() > 0 ==> r@ == decimal(self.profiles.keys().len())
                + " connection name(s): "@ + join(self.profiles.keys(), ", "@),
    {
        let n = self.profiles.key_count();
        if n == 0 {
            return string_of(&chars_of("(none)"));
        }
        let names = self.profile_slugs();
        let mut parts: Vec<Vec<char>> = Vec::new();
        let mut i: usize = 0;
        while i < names.len()
            invariant
                i <= names.len(),
                parts@.map_values(|w: Vec<char>| w@) == names@.map_values(|s: String| s@).take(
                    i as int,
                ),
            decreases names.len() - i,
        {
            let ghost before = parts@.map_values(|w: Vec<char>| w@);
            parts.push(chars_of(names[i].as_str()));
            proof {
                assert(parts@.map_values(|w: Vec<char>| w@) =~= before.push(names@[i as int]@));
                assert(names@.map_values(|s: String| s@).take(i + 1) =~= names@.map_values(
                    |s: String| s@,
                ).take(i as int).push(names@[i as int]@));
            }
            i = i + 1;
        }
        assert(names@.map_values(|s: String| s@).take(names.len() as int) =~= names@.map_values(
            |s: String| s@,
        ));
        let mut out = decimal_chars(n as u64);
        let mid = chars_of(" connection name(s): ");
        append_chars(&mut out, &mid);
        let sep = chars_of(", ");
        let joined = join_chars(&parts, &sep);
        append_chars(&mut out, &joined);
        string_of(&out)
    }

    /// The backups root, or `(not set)`.
    pub fn path_hint(&self) -> (r: String)
        ensures
            r@ == hint_or(self.path@, "(not set)"@),
    {
        let t = trim_chars(&chars_of(self.path.as_str()));
        if t.len() == 0 {
            string_of(&chars_of("(not set)"))
        } else {
            string_of(&t)
        }
    }

    /// The output folder, or a note that files are written next to the `.aes` file.
    pub fn output_path_hint(&self) -> (r: String)
        ensures
            r@ == hint_or(self.output_path@, "(in-place, next to .aes)"@),
    {
        let t = trim_chars(&chars_of(self.output_path.as_str()));
        if t.len() == 0 {
            string_of(&chars_of("(in-place, next to .aes)"))
        } else {
            string_of(&t)
        }
    }

    /// Password chosen without asking: that of the connection the file's folder
    /// names (`slug`, found from the file's path under the root), else that of
    /// the only connection.
    pub fn auto_password_for_file(&self, slug: Option<&str>) -> (r: Option<String>)
        ensures
            slug matches Some(s) && spec_profile_password(self.profiles.map(), s@) is Some ==> r
                is Some && r->0@ == spec_profile_password(self.profiles.map(), slug->0@)->0,
            !(slug matches Some(s) && spec_profile_password(self.profiles.map(), s@) is Some)
                && self.profiles.map().dom().len() == 1 ==> r is Some && r->0@ == self.profiles.map()[
                self.profiles.keys()[0]]@,
            !(slug matches Some(s) && spec_profile_password(self.profiles.map(), s@) is Some)
                && self.profiles.map().dom().len() != 1 ==> r is None,
    {
        if let Some(s) = slug {
            if let Some(p) = self.profile_password(s) {
                return Some(string_of(&chars_of(p)));
            }
        }
        if self.profiles.key_count() == 1 {
            let v = self.profiles.value_at(0);
            return Some(v.clone());
        }
        None
    }

    /// The password of a connection, owned.
    pub fn password_for_slug(&self, slug: &str) -> (r: Option<String>)
        ensures
            r matches Some(p) ==> spec_profile_password(self.profiles.map(), slug@) == Some(p@),
            r is None ==> spec_profile_password(self.profiles.map(), slug@) is None,
    {
        match self.profile_password(slug) {
            Some(p) => Some(string_of(&chars_of(p))),
            None => None,
        }
    }
}

/// Whether the settings hold anything worth writing to disk.
pub open spec fn spec_should_persist(cfg: &DecryptConfig) -> bool {
    cfg.profiles.map().dom().len() > 0 || trim(cfg.path@).len() > 0 || trim(cfg.output_path@).len()
        > 0 || trim(cfg.last_path@).len() > 0
}

/// Whether the settings hold anything worth writing to disk.
pub fn should_persist(cfg: &DecryptConfig) -> (r: bool)
    ensures
        r == spec_should_persist(cfg),
{
    cfg.profiles.key_count() > 0 || trim_chars(&chars_of(cfg.path.as_str())).len() > 0
        || trim_chars(&chars_of(cfg.output_path.as_str())).len() > 0 || trim_chars(
        &chars_of(cfg.last_path.as_str()),
    ).len() > 0
}

/// Why renaming a connection was refused.
#[derive(Debug, Clone, Copy, PartialEq, Eq)]
pub enum RenameError {
    /// Another connection with a password already has the new name.
    Exists,
    /// There is no connection under the old name.
    NotFound,
}

impl DecryptConfig {
    /// Gives the connection `from` the name `to`, keeping its password:
    /// `Ok(false)` when the names are equal, `Ok(true)` once renamed.
    pub fn rename_profile(&mut self, from: &str, to: &str) -> (r: Result<bool, RenameError>)
        ensures
            final(self).path == old(self).path,
            final(self).last_path == old(self).last_path,
            final(self).output_path == old(self).output_path,
            from@ == to@ ==> r == Ok::<bool, RenameError>(false) && final(self).profiles.map()
                == old(self).profiles.map(),
            from@ != to@ && spec_profile_password(old(self).profiles.map(), to@) is Some ==> r
                == Err::<bool, RenameError>(RenameError::Exists) && final(self).profiles.map()
                == old(self).profiles.map(),
            from@ != to@ && spec_profile_password(old(self).profiles.map(), to@) is None
                && !old(self).profiles.map().dom().contains(from@) ==> r == Err::<bool, RenameError>(
                RenameError::NotFound,
            ) && final(self).profiles.map() == old(self).profiles.map(),
            from@ != to@ && spec_profile_password(old(self).profiles.map(), to@) is None
                && old(self).profiles.map().dom().contains(from@) ==> r == Ok::<bool, RenameError>(
                true,
            ) && final(self).profiles.map() == old(self).profiles.map().remove(from@).insert(
                to@,
                old(self).profiles.map()[from@],
            ),
    {
        if crate::text::str_eq(from, to) {
            return Ok(false);
        }
        if self.profile_password(to).is_some() {
            return Err(RenameError::Exists);
        }
        match self.profiles.remove(from) {
            Some(pass) => {
                self.profiles.insert(string_of(&chars_of(to)), pass);
                Ok(true)
            },
            None => Err(RenameError::NotFound),
        }
    }
}

/// Why a connection name was refused.
#[derive(Debug, Clone, Copy, PartialEq, Eq)]
pub enum NameError {
    Empty,
    Separator,
}

impl NameError {
    pub open spec fn text(&self) -> Seq<char> {
        match self {
            NameError::Empty => "Connection name cannot be empty"@,
            NameError::Separator => "Connection name must not contain path separators"@,
        }
    }

    /// The message shown for this error.
    pub fn message(&self) -> (r: String)
        ensures
            r@ == self.text(),
    {
        match self {
            NameError::Empty => string_of(&chars_of("Connection name cannot be empty")),
            NameError::Separator => string_of(
                &chars_of("Connection name must not contain path separators"),
            ),
        }
    }
}

/// A connection name as typed, trimmed; it must not be empty nor hold `/` or `\`.
pub fn check_connection_name(input: &str) -> (r: Result<String, NameError>)
    ensures
        trim(input@).len() == 0 ==> r == Err::<String, NameError>(NameError::Empty),
        trim(input@).len() > 0 && (trim(input@).contains('/') || trim(input@).contains('\\')) ==> r
            == Err::<String, NameError>(NameError::Separator),
        trim(input@).len() > 0 && !trim(input@).contains('/') && !trim(input@).contains('\\') ==> r
            is Ok && r->Ok_0@ == trim(input@),
{
    let t = trim_chars(&chars_of(input));
    if t.len() == 0 {
        return Err(NameError::Empty);
    }
    let mut i: usize = 0;
    while i < t.len()
        invariant
            i <= t@.len(),
            t@ == trim(input@),
            t@.len() > 0,
            forall|k: int| 0 <= k < i ==> #[trigger] t@[k] != '/' && t@[k] != '\\',
        decreases t@.len() - i,
    {
        if t[i] == '/' || t[i] == '\\' {
            assert(t@.contains(t@[i as int]));
            return Err(NameError::Separator);
        }
        i = i + 1;
    }
    Ok(string_of(&t))
}

/// The characters a generated password is made of (no look-alikes such as `0`/`O`, `1`/`l`).
pub const PASSWORD_CHARS: &'static str = "ABCDEFGHJKLMNPQRSTUVWXYZabcdefghijkmnopqrstuvwxyz23456789";

/// A number drawn at random below `n` (`rand::thread_rng().gen_range(0..n)`).
/// Which number comes out depends on the thread's generator; only the bound is
/// stated.
#[verifier::external_body]
fn random_below(n: usize) -> (r: usize)
    requires
        n > 0,
    ensures
        r < n,
{
    rand::thread_rng().gen_range(0..n)
}

/// The number of characters in [`PASSWORD_CHARS`].
pub const PASSWORD_CHARS_LEN: usize = 57;

/// The password whose `i`-th character is the `d[i]`-th of [`PASSWORD_CHARS`].
pub open spec fn password_of(d: Seq<usize>) -> Seq<char> {
    Seq::new(d.len(), |i: int| PASSWORD_CHARS@[d[i] as int])
}

/// The password made of the characters of [`PASSWORD_CHARS`] at positions `d`.
pub fn password_from_indices(d: &Vec<usize>) -> (r: String)
    requires
        forall|i: int| 0 <= i < d@.len() ==> #[trigger] d@[i] < PASSWORD_CHARS_LEN,
    ensures
        r@ == password_of(d@),
{
    let alphabet = chars_of(PASSWORD_CHARS);
    proof {
        reveal_strlit("ABCDEFGHJKLMNPQRSTUVWXYZabcdefghijkmnopqrstuvwxyz23456789");
    }
    assert(alphabet@.len() == PASSWORD_CHARS_LEN);
    let mut out = String::new();
    let mut k: usize = 0;
    while k < d.len()
        invariant
            k <= d@.len(),
            alphabet@ == PASSWORD_CHARS@,
            alphabet@.len() == PASSWORD_CHARS_LEN,
            forall|i: int| 0 <= i < d@.len() ==> #[trigger] d@[i] < PASSWORD_CHARS_LEN,
            out@ =~= password_of(d@.take(k as int)),
        decreases d@.len() - k,
    {
        let c = alphabet[d[k]];
        push_char(&mut out, c);
        assert(password_of(d@.take(k + 1)) =~= password_of(d@.take(k as int)).push(c));
        k = k + 1;
    }
    assert(d@.take(d@.len() as int) =~= d@);
    out
}

/// A random password of `len` characters drawn from [`PASSWORD_CHARS`]: the
/// password of `len` positions drawn at random.
pub fn generate_random_password(len: usize) -> (r: String)
    ensures
        r@.len() == len,
        forall|i: int| 0 <= i < len ==> PASSWORD_CHARS@.contains(#[trigger] r@[i]),
        exists|d: Seq<usize>|
            d.len() == len && (forall|i: int| 0 <= i < len ==> #[trigger] d[i] < PASSWORD_CHARS_LEN)
                && r@ == password_of(d),
{
    let mut d: Vec<usize> = Vec::new();
    let mut k: usize = 0;
    while k < len
        invariant
            k <= len,
            d@.len() == k,
            forall|i: int| 0 <= i < k ==> #[trigger] d@[i] < PASSWORD_CHARS_LEN,
        decreases len - k,
    {
        d.push(random_below(PASSWORD_CHARS_LEN));
        k = k + 1;
    }
    let r = password_from_indices(&d);
    proof {
        reveal_strlit("ABCDEFGHJKLMNPQRSTUVWXYZabcdefghijkmnopqrstuvwxyz23456789");
        assert forall|i: int| 0 <= i < len implies PASSWORD_CHARS@.contains(#[trigger] r@[i]) by {
            assert(r@[i] == PASSWORD_CHARS@[d@[i] as int]);
        }
    }
    r
}

/// Setting a connection's password and then looking it up gives that
/// password back (nothing when it is empty), and leaves every other
/// connection's password as it was.
pub proof fn law_set_then_lookup(
    m: Map<Seq<char>, String>,
    slug: Seq<char>,
    password: String,
    other: Seq<char>,
)
    requires
        other != slug,
    ensures
        spec_profile_password(m.insert(slug, password), slug) == (if password@.len() > 0 {
            Some(password@)
        } else {
            None
        }),
        spec_profile_password(m.insert(slug, password), other) == spec_profile_password(m, other),
{
}

/// After a connection is removed, looking it up gives nothing.
pub proof fn law_remove_then_lookup(m: Map<Seq<char>, String>, slug: Seq<char>)
    ensures
        spec_profile_password(m.remove(slug), slug) is None,
{
}

/// A rename that succeeds moves the password from the old name to the new
/// one: the new name gives what the old name gave, the old name gives nothing.
pub proof fn law_rename_moves_password(m: Map<Seq<char>, String>, from: Seq<char>, to: Seq<char>)
    requires
        from != to,
        m.dom().contains(from),
    ensures
        spec_profile_password(m.remove(from).insert(to, m[from]), to) == spec_profile_password(
            m,
            from,
        ),
        spec_profile_password(m.remove(from).insert(to, m[from]), from) is None,
{
}

} // verus!
