//! Stable machine fingerprint → SHA-256 hex (`device_id`). The caller reads
//! the machine's fields; this module canonicalizes and hashes them.
use vstd::prelude::*;

use crate::digest::{hex_encode, hex_lower, is_lower_hex_digit, lemma_hex_lower_shape, sha256, sha256_digest};
use crate::strmap::{lemma_lt_asym, seq_lt, StrMap};
use crate::text::{
    append_chars, ascii_lower, chars_eq, chars_of, join, join_chars, str_eq, string_of, trim,
    trim_chars,
};
use crate::task_params::{split_chars, split_on};
use crate::protocol::opt_string_view;
use crate::text::{contains, contains_chars};

verus! {

/// Why no device id could be computed.
#[derive(Debug, Clone, PartialEq, Eq)]
pub enum DeviceIdError {
    /// Only the operating system and architecture are known.
    InsufficientFields,
}

pub open spec fn strictly_sorted(s: Seq<Seq<char>>) -> bool {
    forall|i: int, j: int| 0 <= i < j < s.len() ==> seq_lt(#[trigger] s[i], #[trigger] s[j])
}

/// The keys of a finite map in ascending order.
pub open spec fn sorted_keys(m: Map<Seq<char>, Seq<char>>) -> Seq<Seq<char>> {
    choose|s: Seq<Seq<char>>| strictly_sorted(s) && s.to_set() == m.dom()
}

/// The fields that make up the fingerprint: OS, architecture, then the
/// platform fields in order (a later field replaces an earlier one of the
/// same name).
pub open spec fn fields_map(
    os: Seq<char>,
    arch: Seq<char>,
    fields: Seq<(Seq<char>, Seq<char>)>,
) -> Map<Seq<char>, Seq<char>>
    decreases fields.len(),
{
    if fields.len() == 0 {
        Map::empty().insert("target_os"@, os).insert("target_arch"@, arch)
    } else {
        fields_map(os, arch, fields.drop_last()).insert(fields.last().0, fields.last().1)
    }
}

/// `k=v` for each field in key order, joined with `|`.
pub open spec fn canonical_text(m: Map<Seq<char>, Seq<char>>) -> Seq<char> {
    join(sorted_keys(m).map_values(|k: Seq<char>| k + seq!['='] + m[k]), seq!['|'])
}

/// The device id of a fingerprint.
pub open spec fn spec_device_id(m: Map<Seq<char>, Seq<char>>) -> Seq<char> {
    hex_lower(sha256_digest(vstd::utf8::encode_utf8(canonical_text(m))))
}

pub open spec fn pairs_view(v: Seq<(String, String)>) -> Seq<(Seq<char>, Seq<char>)> {
    v.map_values(|p: (String, String)| (p.0@, p.1@))
}

pub open spec fn values_view(m: Map<Seq<char>, String>) -> Map<Seq<char>, Seq<char>> {
    m.map_values(|s: String| s@)
}

/// Two strictly ascending sequences with the same elements are equal.
pub proof fn lemma_sorted_unique(a: Seq<Seq<char>>, b: Seq<Seq<char>>)
    requires
        strictly_sorted(a),
        strictly_sorted(b),
        a.to_set() == b.to_set(),
    ensures
        a == b,
    decreases a.len(),
{
    if a.len() == 0 {
        if b.len() > 0 {
            assert(b.to_set().contains(b[0]));
            assert(!a.to_set().contains(b[0]));
        }
        assert(a =~= b);
    } else {
        assert(a.to_set().contains(a[0]));
        assert(b.to_set().contains(a[0]));
        assert(b.len() > 0);
        assert(a.to_set().contains(b[0]));
        let i = choose|i: int| 0 <= i < a.len() && a[i] == b[0];
        let j = choose|j: int| 0 <= j < b.len() && b[j] == a[0];
        if a[0] != b[0] {
            assert(i > 0 && j > 0);
            assert(seq_lt(a[0], a[i]));
            assert(seq_lt(b[0], b[j]));
            lemma_lt_asym(a[0], b[0]);
            assert(false);
        }
        let a1 = a.drop_first();
        let b1 = b.drop_first();
        assert(a1.to_set() =~= b1.to_set()) by {
            assert forall|x: Seq<char>| a1.to_set().contains(x) implies b1.to_set().contains(x) by {
                let k = choose|k: int| 0 <= k < a1.len() && a1[k] == x;
                assert(a[k + 1] == x);
                assert(seq_lt(a[0], a[k + 1]));
                lemma_lt_asym(a[0], x);
                assert(b.to_set().contains(x));
                let m = choose|m: int| 0 <= m < b.len() && b[m] == x;
                assert(m != 0);
                assert(b1[m - 1] == x);
            }
            assert forall|x: Seq<char>| b1.to_set().contains(x) implies a1.to_set().contains(x) by {
                let k = choose|k: int| 0 <= k < b1.len() && b1[k] == x;
                assert(b[k + 1] == x);
                assert(seq_lt(b[0], b[k + 1]));
                lemma_lt_asym(b[0], x);
                assert(a.to_set().contains(x));
                let m = choose|m: int| 0 <= m < a.len() && a[m] == x;
                assert(m != 0);
                assert(a1[m - 1] == x);
            }
        }
        assert(strictly_sorted(a1)) by {
            assert forall|p: int, q: int| 0 <= p < q < a1.len() implies seq_lt(
                #[trigger] a1[p],
                #[trigger] a1[q],
            ) by {
                assert(a1[p] == a[p + 1] && a1[q] == a[q + 1]);
            }
        }
        assert(strictly_sorted(b1)) by {
            assert forall|p: int, q: int| 0 <= p < q < b1.len() implies seq_lt(
                #[trigger] b1[p],
                #[trigger] b1[q],
            ) by {
                assert(b1[p] == b[p + 1] && b1[q] == b[q + 1]);
            }
        }
        lemma_sorted_unique(a1, b1);
        assert(a =~= seq![a[0]] + a1);
        assert(b =~= seq![b[0]] + b1);
    }
}

/// The sorted keys of a map are the keys a `StrMap` lists.
proof fn lemma_sorted_keys_of(m: &StrMap<String>)
    requires
        strictly_sorted(m.keys()),
        forall|k: Seq<char>| #[trigger] m.map().dom().contains(k) <==> m.keys().contains(k),
    ensures
        sorted_keys(values_view(m.map())) == m.keys(),
{
    let vm = values_view(m.map());
    assert(m.keys().to_set() =~= vm.dom());
    let s = sorted_keys(vm);
    assert(strictly_sorted(s) && s.to_set() == vm.dom());
    lemma_sorted_unique(s, m.keys());
}

/// Builds the fingerprint map from the fields.
fn fingerprint_map(target_os: &str, target_arch: &str, fields: &Vec<(String, String)>) -> (r:
    StrMap<String>)
    ensures
        values_view(r.map()) == fields_map(target_os@, target_arch@, pairs_view(fields@)),
{
    let mut m: StrMap<String> = StrMap::new();
    m.insert(string_of(&chars_of("target_os")), string_of(&chars_of(target_os)));
    m.insert(string_of(&chars_of("target_arch")), string_of(&chars_of(target_arch)));
    let ghost fs = pairs_view(fields@);
    assert(values_view(m.map()) =~= fields_map(target_os@, target_arch@, fs.take(0)));
    let mut i: usize = 0;
    while i < fields.len()
        invariant
            i <= fields.len(),
            fs == pairs_view(fields@),
            values_view(m.map()) == fields_map(target_os@, target_arch@, fs.take(i as int)),
        decreases fields.len() - i,
    {
        let ghost before = m.map();
        let k = string_of(&chars_of(fields[i].0.as_str()));
        let v = string_of(&chars_of(fields[i].1.as_str()));
        m.insert(k, v);
        proof {
            let t = fs.take(i + 1);
            assert(t.drop_last() =~= fs.take(i as int));
            assert(t.last() == (fields@[i as int].0@, fields@[i as int].1@));
            assert(values_view(m.map()) =~= values_view(before).insert(
                fields@[i as int].0@,
                fields@[i as int].1@,
            ));
        }
        i = i + 1;
    }
    assert(fs.take(fields.len() as int) =~= fs);
    m
}

/// The device id of the machine whose fields are given: SHA-256 (lowercase
/// hex) of `k=v|k=v|…` over the fields in key order.
pub fn device_id_from_fields(
    target_os: &str,
    target_arch: &str,
    fields: &Vec<(String, String)>,
) -> (r: Result<String, DeviceIdError>)
    ensures
        ({
            let m = fields_map(target_os@, target_arch@, pairs_view(fields@));
            &&& m.dom().len() <= 2 ==> r == Err::<String, DeviceIdError>(
                DeviceIdError::InsufficientFields,
            )
            &&& m.dom().len() > 2 ==> r is Ok && r->Ok_0@ == spec_device_id(m)
        }),
        r matches Ok(id) ==> id@.len() == 64 && forall|i: int|
            0 <= i < id@.len() ==> is_lower_hex_digit(#[trigger] id@[i]),
{
    let m = fingerprint_map(target_os, target_arch, fields);
    let ghost vm = values_view(m.map());
    let n = m.key_count();
    proof {
        assert(vm.dom() =~= m.map().dom());
    }
    if n <= 2 {
        return Err(DeviceIdError::InsufficientFields);
    }
    let keys = m.key_strings();
    proof {
        assert(strictly_sorted(m.keys())) by {
            assert forall|i: int, j: int| 0 <= i < j < m.keys().len() implies seq_lt(
                #[trigger] m.keys()[i],
                #[trigger] m.keys()[j],
            ) by {}
        }
        lemma_sorted_keys_of(&m);
    }
    let ghost ks = sorted_keys(vm);
    let ghost entries = ks.map_values(|k: Seq<char>| k + seq!['='] + vm[k]);
    let mut parts: Vec<Vec<char>> = Vec::new();
    let mut i: usize = 0;
    while i < n
        invariant
            i <= n,
            n == m.keys().len(),
            ks == m.keys(),
            vm == values_view(m.map()),
            entries == ks.map_values(|k: Seq<char>| k + seq!['='] + vm[k]),
            keys@.map_values(|s: String| s@) == m.keys(),
            parts@.map_values(|w: Vec<char>| w@) == entries.take(i as int),
        decreases n - i,
    {
        let mut part = chars_of(keys[i].as_str());
        part.push('=');
        let v = m.value_at(i);
        append_chars(&mut part, &chars_of(v.as_str()));
        let ghost before = parts@.map_values(|w: Vec<char>| w@);
        proof {
            assert(keys@.map_values(|s: String| s@)[i as int] == keys@[i as int]@);
            assert(vm[ks[i as int]] == v@);
            assert(part@ == entries[i as int]);
        }
        parts.push(part);
        proof {
            assert(parts@.map_values(|w: Vec<char>| w@) =~= before.push(entries[i as int]));
            assert(entries.take(i + 1) =~= entries.take(i as int).push(entries[i as int]));
        }
        i = i + 1;
    }
    assert(entries.take(n as int) =~= entries);
    let sep: Vec<char> = vec!['|'];
    assert(sep@ =~= seq!['|']);
    let canonical = join_chars(&parts, &sep);
    let text = string_of(&canonical);
    assert(text@ == canonical_text(vm));
    let bytes = text.as_str().as_bytes();
    assert(bytes@ == vstd::utf8::encode_utf8(canonical_text(vm)));
    let digest = sha256(bytes);
    proof {
        lemma_hex_lower_shape(digest@);
    }
    Ok(hex_encode(digest.as_slice()))
}

/// `eq_ignore_ascii_case`.
fn eq_ignore_case(a: &[char], b: &str) -> (r: bool)
    ensures
        r == (ascii_lower(a@) == ascii_lower(b@)),
{
    let bv = chars_of(b);
    let la = crate::text::lower_chars(a);
    let lb = crate::text::lower_chars(&bv);
    chars_eq(&la, &lb)
}

/// Placeholder serials that vendors ship instead of a real one.
pub open spec fn spec_is_generic_serial(value: Seq<char>) -> bool {
    let v = trim(value);
    v.len() == 0 || ascii_lower(v) == ascii_lower("System Serial Number"@) || ascii_lower(v)
        == ascii_lower("(empty)"@) || v == "To be filled by O.E.M."@ || v == "Default string"@
}

/// Whether a serial number is a vendor placeholder (or blank).
pub fn is_generic_serial(value: &str) -> (r: bool)
    ensures
        r == spec_is_generic_serial(value@),
{
    let v = trim_chars(&chars_of(value));
    let s = string_of(&v);
    v.len() == 0 || eq_ignore_case(&v, "System Serial Number") || eq_ignore_case(&v, "(empty)")
        || str_eq(s.as_str(), "To be filled by O.E.M.") || str_eq(s.as_str(), "Default string")
}

/// A hardware identifier read from the system, trimmed; `None` when blank or
/// a vendor placeholder.
pub fn identifier_value(raw: &str) -> (r: Option<String>)
    ensures
        trim(raw@).len() == 0 || spec_is_generic_serial(trim(raw@)) ==> r is None,
        !(trim(raw@).len() == 0 || spec_is_generic_serial(trim(raw@))) ==> r is Some && r->0@
            == trim(raw@),
{
    let t = trim_chars(&chars_of(raw));
    let s = string_of(&t);
    if t.len() == 0 || is_generic_serial(s.as_str()) {
        None
    } else {
        Some(s)
    }
}

/// The first line holding `pat`.
pub open spec fn first_line_with(lines: Seq<Seq<char>>, pat: Seq<char>) -> Option<Seq<char>>
    decreases lines.len(),
{
    if lines.len() == 0 {
        None
    } else if contains(lines[0], pat) {
        Some(lines[0])
    } else {
        first_line_with(lines.drop_first(), pat)
    }
}

/// The platform UUID in `ioreg -rd1 -c IOPlatformExpertDevice` output: on the
/// first line naming `IOPlatformUUID`, the fourth `"`-separated piece, trimmed,
/// when it is not blank.
pub open spec fn spec_ioreg_uuid(text: Seq<char>) -> Option<Seq<char>> {
    match first_line_with(split_on(text, '\n'), "IOPlatformUUID"@) {
        Some(line) => {
            let parts = split_on(line, '"');
            if parts.len() > 3 && trim(parts[3]).len() > 0 {
                Some(trim(parts[3]))
            } else {
                None
            }
        },
        None => None,
    }
}

/// Reads the platform UUID from `ioreg` output.
pub fn platform_uuid_from_ioreg(text: &str) -> (r: Option<String>)
    ensures
        opt_string_view(r) == spec_ioreg_uuid(text@),
{
    let lines = split_chars(&chars_of(text), '\n');
    let ghost ls = lines@.map_values(|w: Vec<char>| w@);
    let pat = chars_of("IOPlatformUUID");
    let mut i: usize = 0;
    assert(ls.skip(0) =~= ls);
    while i < lines.len()
        invariant
            i <= lines@.len(),
            ls == lines@.map_values(|w: Vec<char>| w@),
            ls == split_on(text@, '\n'),
            pat@ == "IOPlatformUUID"@,
            first_line_with(ls.skip(i as int), pat@) == first_line_with(ls, pat@),
        decreases lines@.len() - i,
    {
        assert(ls.skip(i as int)[0] == lines@[i as int]@);
        if contains_chars(&lines[i], &pat) {
            let parts = split_chars(&lines[i], '"');
            let ghost ps = parts@.map_values(|w: Vec<char>| w@);
            if parts.len() > 3 {
                assert(ps[3] == parts@[3]@);
                let t = trim_chars(&parts[3]);
                if t.len() > 0 {
                    return Some(string_of(&t));
                }
            }
            return None;
        }
        assert(ls.skip(i as int).drop_first() =~= ls.skip(i + 1));
        i = i + 1;
    }
    assert(ls.skip(i as int) =~= Seq::<Seq<char>>::empty());
    None
}

} // verus!
