//! Decrypting one `.aes` file interactively: which password is tried first,
//! which connections are offered when it is wrong, and when to stop.
use vstd::prelude::*;

use crate::config::{spec_has_any_password, spec_profile_password, DecryptConfig};
use crate::task_params::strings_view;
use crate::text::{append_chars, chars_of, str_eq, string_of};

verus! {

/// Header written above the serialized settings in `decrypt.toml`.
pub const CONFIG_HEADER: &'static str = "# backup-decrypt configuration (decrypt.toml)\n# [profiles] — connection name → encrypt_password (one per VPS if keys differ)\n# path       — root folder; inside: {slug}/*.aes subfolders\n# last_path  — updated automatically\n# output_path — empty: decrypt next to .aes; or e.g. E:/decrypted\n\n";

/// The text of `decrypt.toml`: the header, then the serialized settings.
pub fn config_file_content(body: &str) -> (r: String)
    ensures
        r@ == CONFIG_HEADER@ + body@,
{
    let mut v = chars_of(CONFIG_HEADER);
    append_chars(&mut v, &chars_of(body));
    string_of(&v)
}

/// Whether a list of names holds `s`.
pub open spec fn has_name(names: Seq<String>, s: Seq<char>) -> bool {
    exists|i: int| 0 <= i < names.len() && #[trigger] names[i]@ == s
}

fn contains_name(names: &Vec<String>, s: &str) -> (r: bool)
    ensures
        r == has_name(names@, s@),
{
    let mut i: usize = 0;
    while i < names.len()
        invariant
            i <= names.len(),
            forall|k: int| 0 <= k < i ==> #[trigger] names@[k]@ != s@,
        decreases names.len() - i,
    {
        if str_eq(names[i].as_str(), s) {
            return true;
        }
        i = i + 1;
    }
    false
}

/// Where the password of the next try comes from.
#[derive(Debug)]
pub enum PasswordSource {
    /// Use this password without asking; `announce` names the connection it
    /// belongs to, when known.
    Auto { password: String, announce: Option<String> },
    /// Ask the user to pick a connection or enter a password.
    Ask,
}

/// The connection a wrong password is charged to: the file's folder, else the
/// only connection.
pub open spec fn charged_slug(cfg: &DecryptConfig, slug: Option<Seq<char>>) -> Option<Seq<char>> {
    match slug {
        Some(s) => Some(s),
        None => if cfg.profiles.map().dom().len() == 1 {
            Some(cfg.profiles.keys()[0])
        } else {
            None
        },
    }
}

/// The tries made on one encrypted file.
#[derive(Debug)]
pub struct DecryptAttempts {
    /// Connections whose password proved wrong for this file.
    pub tried: Vec<String>,
    /// Whether the automatic choice may still be used.
    pub use_auto: bool,
}

impl DecryptAttempts {
    /// Nothing tried yet; the automatic choice comes first.
    pub fn new() -> (r: Self)
        ensures
            r.tried@.len() == 0,
            r.use_auto,
    {
        DecryptAttempts { tried: Vec::new(), use_auto: true }
    }

    /// The source of the next password for a file whose folder names `slug`:
    /// the automatic choice while it is allowed and its connection has not
    /// failed, otherwise a question.
    pub fn password_source(&self, cfg: &DecryptConfig, slug: Option<&str>) -> (r: PasswordSource)
        ensures
            ({
                let auto = if slug matches Some(s) && spec_profile_password(
                    cfg.profiles.map(),
                    s@,
                ) is Some {
                    Some(spec_profile_password(cfg.profiles.map(), slug->0@)->0)
                } else if cfg.profiles.map().dom().len() == 1 {
                    Some(cfg.profiles.map()[cfg.profiles.keys()[0]]@)
                } else {
                    None::<Seq<char>>
                };
                let blocked = slug matches Some(s) && has_name(self.tried@, s@);
                if self.use_auto && auto is Some && !blocked {
                    r matches PasswordSource::Auto { password, announce } && password@ == auto->0
                        && match announce {
                        Some(a) => charged_slug(
                            cfg,
                            match slug {
                                Some(s) => Some(s@),
                                None => None,
                            },
                        ) == Some(a@),
                        None => charged_slug(
                            cfg,
                            match slug {
                                Some(s) => Some(s@),
                                None => None,
                            },
                        ) is None,
                    }
                } else {
                    r is Ask
                }
            }),
    {
        if !self.use_auto {
            return PasswordSource::Ask;
        }
        let p = match cfg.auto_password_for_file(slug) {
            Some(p) => p,
            None => return PasswordSource::Ask,
        };
        match slug {
            Some(s) => {
                if contains_name(&self.tried, s) {
                    return PasswordSource::Ask;
                }
                PasswordSource::Auto { password: p, announce: Some(string_of(&chars_of(s))) }
            },
            None => {
                if cfg.profiles.key_count() == 1 {
                    let keys = cfg.profiles.key_strings();
                    let first = string_of(&chars_of(keys[0].as_str()));
                    PasswordSource::Auto { password: p, announce: Some(first) }
                } else {
                    PasswordSource::Auto { password: p, announce: None }
                }
            },
        }
    }

    /// Records a wrong password: the automatic choice is dropped, the
    /// connection it belongs to is marked tried, and the result tells whether
    /// another connection is left to try.
    pub fn after_wrong_password(&mut self, cfg: &DecryptConfig, slug: Option<&str>) -> (r: bool)
        ensures
            !final(self).use_auto,
            ({
                let c = charged_slug(
                    cfg,
                    match slug {
                        Some(s) => Some(s@),
                        None => None,
                    },
                );
                match c {
                    Some(s) => if has_name(old(self).tried@, s) {
                        strings_view(final(self).tried@) == strings_view(old(self).tried@)
                    } else {
                        strings_view(final(self).tried@) == strings_view(old(self).tried@).push(s)
                    },
                    None => strings_view(final(self).tried@) == strings_view(old(self).tried@),
                }
            }),
            r == (cfg.profiles.map().dom().len() > final(self).tried@.len()),
    {
        self.use_auto = false;
        let charged: Option<String> = match slug {
            Some(s) => Some(string_of(&chars_of(s))),
            None => if cfg.profiles.key_count() == 1 {
                let keys = cfg.profiles.key_strings();
                Some(string_of(&chars_of(keys[0].as_str())))
            } else {
                None
            },
        };
        match charged {
            Some(s) => {
                if !contains_name(&self.tried, s.as_str()) {
                    let ghost before = strings_view(self.tried@);
                    self.tried.push(s);
                    assert(strings_view(self.tried@) =~= before.push(self.tried@.last()@));
                }
            },
            None => {},
        }
        let n = cfg.profiles.key_count();
        n > self.tried.len()
    }
}

/// One entry of the password menu.
#[derive(Debug)]
pub enum PasswordChoice {
    /// A connection's saved password; the label says why it is offered.
    Profile { label: String, slug: String },
    /// Type a password that is not saved.
    EnterOnce,
    /// Give up on this file.
    Cancel,
}

/// Why no password menu can be shown.
#[derive(Debug, Clone, Copy, PartialEq, Eq)]
pub enum ChoiceError {
    /// No connection with a password is left to offer.
    NoConnections,
}

/// The connections offered, in menu order: the file's folder first (when it
/// has a password and was not excluded), then the other connections in name
/// order that were not excluded.
pub open spec fn offered(keys: Seq<Seq<char>>, auto: Option<Seq<char>>, exclude: Seq<String>) -> Seq<
    Seq<char>,
>
    decreases keys.len(),
{
    if keys.len() == 0 {
        match auto {
            Some(s) => seq![s],
            None => Seq::empty(),
        }
    } else {
        let k = keys.last();
        let rest = offered(keys.drop_last(), auto, exclude);
        if has_name(exclude, k) || auto == Some(k) {
            rest
        } else {
            rest.push(k)
        }
    }
}

/// The folder's connection when it can be offered first.
pub open spec fn auto_offer(cfg: &DecryptConfig, slug: Option<Seq<char>>, exclude: Seq<String>) -> Option<
    Seq<char>,
> {
    match slug {
        Some(s) => if spec_profile_password(cfg.profiles.map(), s) is Some && !has_name(exclude, s) {
            Some(s)
        } else {
            None
        },
        None => None,
    }
}

/// The slug behind a menu entry.
pub open spec fn choice_slug(c: PasswordChoice) -> Option<Seq<char>> {
    match c {
        PasswordChoice::Profile { slug, .. } => Some(slug@),
        _ => None,
    }
}

/// The password menu for a file whose folder names `slug`, leaving out the
/// connections in `exclude`: the offered connections, then "enter once" and
/// "cancel".
pub fn password_choices(cfg: &DecryptConfig, slug: Option<&str>, exclude: &Vec<String>) -> (r:
    Result<Vec<PasswordChoice>, ChoiceError>)
    ensures
        ({
            let offers = offered(
                cfg.profiles.keys(),
                auto_offer(
                    cfg,
                    match slug {
                        Some(s) => Some(s@),
                        None => None,
                    },
                    exclude@,
                ),
                exclude@,
            );
            &&& offers.len() == 0 ==> r == Err::<Vec<PasswordChoice>, ChoiceError>(
                ChoiceError::NoConnections,
            )
            &&& offers.len() > 0 ==> (r matches Ok(v) && v@.len() == offers.len() + 2 && (forall|
                i: int,
            |
                0 <= i < offers.len() ==> choice_slug(#[trigger] v@[i]) == Some(offers[i]))
                && v@[offers.len() as int] is EnterOnce && v@[offers.len() + 1int] is Cancel)
        }),
{
    let mut out: Vec<PasswordChoice> = Vec::new();
    let ghost auto = auto_offer(
        cfg,
        match slug {
            Some(s) => Some(s@),
            None => None,
        },
        exclude@,
    );
    let mut auto_slug: Option<String> = None;
    match slug {
        Some(s) => {
            if cfg.profile_password(s).is_some() && !contains_name(exclude, s) {
                let mut label = chars_of("Auto: ");
                append_chars(&mut label, &chars_of(s));
                append_chars(&mut label, &chars_of(" (from folder path)"));
                out.push(
                    PasswordChoice::Profile {
                        label: string_of(&label),
                        slug: string_of(&chars_of(s)),
                    },
                );
                auto_slug = Some(string_of(&chars_of(s)));
            }
        },
        None => {},
    }
    let keys = cfg.profiles.key_strings();
    let ghost ks = cfg.profiles.keys();
    assert(ks.take(0) =~= Seq::<Seq<char>>::empty());
    let mut i: usize = 0;
    while i < keys.len()
        invariant
            i <= keys.len(),
            keys@.map_values(|s: String| s@) == ks,
            match auto_slug {
                Some(a) => auto == Some(a@),
                None => auto is None,
            },
            out@.len() == offered(ks.take(i as int), auto, exclude@).len(),
            forall|k: int|
                0 <= k < out@.len() ==> choice_slug(#[trigger] out@[k]) == Some(
                    offered(ks.take(i as int), auto, exclude@)[k],
                ),
        decreases keys.len() - i,
    {
        assert(ks.take(i + 1).drop_last() =~= ks.take(i as int));
        assert(ks.take(i + 1).last() == keys@[i as int]@);
        let k = keys[i].as_str();
        let skip = contains_name(exclude, k) || match &auto_slug {
            Some(a) => str_eq(a.as_str(), k),
            None => false,
        };
        if !skip {
            let mut label = chars_of(k);
            append_chars(&mut label, &chars_of(" (password set)"));
            out.push(
                PasswordChoice::Profile { label: string_of(&label), slug: string_of(&chars_of(k)) },
            );
        }
        i = i + 1;
    }
    assert(ks.take(keys.len() as int) =~= ks);
    if out.len() == 0 {
        return Err(ChoiceError::NoConnections);
    }
    out.push(PasswordChoice::EnterOnce);
    out.push(PasswordChoice::Cancel);
    Ok(out)
}

/// The password picked without asking: that of the connection `slug` names
/// if it has one, else that of the only connection.
pub open spec fn spec_auto_password(cfg: &DecryptConfig, slug: Option<Seq<char>>) -> Option<Seq<char>> {
    if slug matches Some(s) && spec_profile_password(cfg.profiles.map(), s) is Some {
        spec_profile_password(cfg.profiles.map(), slug->0)
    } else if cfg.profiles.map().dom().len() == 1 {
        Some(cfg.profiles.map()[cfg.profiles.keys()[0]]@)
    } else {
        None
    }
}

/// Why no password could be picked for a file named on the command line.
#[derive(Debug, Clone, PartialEq, Eq)]
pub enum CliPasswordError {
    /// No connection has a password.
    NoConnections,
    /// The connection given with `--profile` has no password.
    NoProfilePassword(String),
    /// Neither the file's folder nor a single connection decides.
    NoAutoPassword,
    /// No backups root is set and there is not exactly one connection.
    NoRoot,
}

impl CliPasswordError {
    pub open spec fn text(&self) -> Seq<char> {
        match self {
            CliPasswordError::NoConnections => "No connection configured. Run backup-decrypt → List connections → Add connection."@,
            CliPasswordError::NoProfilePassword(slug) => "No password for profile '"@ + slug@
                + "' in decrypt.toml"@,
            CliPasswordError::NoAutoPassword => "Could not pick password — use --profile SLUG or set [profiles] in decrypt.toml"@,
            CliPasswordError::NoRoot => "Set path in decrypt.toml or use --profile SLUG"@,
        }
    }

    /// The message shown for this error.
    pub fn message(&self) -> (r: String)
        ensures
            r@ == self.text(),
    {
        proof {
            reveal_strlit("No password for profile '");
            reveal_strlit("' in decrypt.toml");
        }
        match self {
            CliPasswordError::NoConnections => string_of(
                &chars_of(
                    "No connection configured. Run backup-decrypt → List connections → Add connection.",
                ),
            ),
            CliPasswordError::NoProfilePassword(slug) => {
                let mut v = chars_of("No password for profile '");
                append_chars(&mut v, &chars_of(slug.as_str()));
                append_chars(&mut v, &chars_of("' in decrypt.toml"));
                string_of(&v)
            },
            CliPasswordError::NoAutoPassword => string_of(
                &chars_of(
                    "Could not pick password — use --profile SLUG or set [profiles] in decrypt.toml",
                ),
            ),
            CliPasswordError::NoRoot => string_of(
                &chars_of("Set path in decrypt.toml or use --profile SLUG"),
            ),
        }
    }
}

/// The password for a file named on the command line: that of `--profile`
/// when given, else the automatic one when the backups root is known
/// (`root_known`; `slug` is then the connection the file's folder names), else
/// that of the only connection.
pub fn password_for_cli(
    cfg: &DecryptConfig,
    profile: Option<&str>,
    root_known: bool,
    slug: Option<&str>,
) -> (r: Result<String, CliPasswordError>)
    ensures
        !spec_has_any_password(cfg.profiles.map()) ==> r == Err::<String, CliPasswordError>(
            CliPasswordError::NoConnections,
        ),
        spec_has_any_password(cfg.profiles.map()) && profile is Some ==> match spec_profile_password(
            cfg.profiles.map(),
            profile->0@,
        ) {
            Some(p) => r is Ok && r->Ok_0@ == p,
            None => r is Err && r->Err_0 is NoProfilePassword && r->Err_0->NoProfilePassword_0@
                == profile->0@,
        },
        spec_has_any_password(cfg.profiles.map()) && profile is None && root_known ==> match spec_auto_password(
            cfg,
            match slug {
                Some(s) => Some(s@),
                None => None,
            },
        ) {
            Some(p) => r is Ok && r->Ok_0@ == p,
            None => r == Err::<String, CliPasswordError>(CliPasswordError::NoAutoPassword),
        },
        spec_has_any_password(cfg.profiles.map()) && profile is None && !root_known ==> if cfg.profiles.map().dom().len()
            == 1 {
            r is Ok && r->Ok_0@ == cfg.profiles.map()[cfg.profiles.keys()[0]]@
        } else {
            r == Err::<String, CliPasswordError>(CliPasswordError::NoRoot)
        },
{
    if !cfg.has_any_password() {
        return Err(CliPasswordError::NoConnections);
    }
    match profile {
        Some(p) => match cfg.password_for_slug(p) {
            Some(pass) => Ok(pass),
            None => Err(CliPasswordError::NoProfilePassword(string_of(&chars_of(p)))),
        },
        None => {
            if root_known {
                match cfg.auto_password_for_file(slug) {
                    Some(pass) => Ok(pass),
                    None => Err(CliPasswordError::NoAutoPassword),
                }
            } else if cfg.profiles.key_count() == 1 {
                let v = cfg.profiles.value_at(0);
                Ok(string_of(&chars_of(v.as_str())))
            } else {
                Err(CliPasswordError::NoRoot)
            }
        },
    }
}

} // verus!
