//! The folder browser of the decryption tool: which entries of a folder are
//! listed, in which order, and under which labels.
use vstd::prelude::*;
use vstd::multiset::Multiset;

use crate::strmap::{compare_chars, lemma_lt_total, lemma_lt_trans, seq_lt};
use crate::text::{append_chars, chars_of, ends_with, ends_with_chars, string_of};

verus! {

broadcast use vstd::seq_lib::group_to_multiset_ensures, vstd::multiset::group_multiset_axioms;

/// What `str::to_lowercase` makes of a text (full Unicode lowercasing).
pub uninterp spec fn str_lowercase(s: Seq<char>) -> Seq<char>;

/// The lowercase form of a text (`str::to_lowercase`).
#[verifier::external_body]
fn lowercase(s: &str) -> (r: String)
    ensures
        r@ == str_lowercase(s@),
{
    s.to_lowercase()
}

/// One entry of a folder as read from disk.
#[derive(Debug, Clone)]
pub struct DirEntry {
    /// The file name.
    pub name: String,
    /// The full path, as the browser opens it.
    pub path: String,
    /// Whether the entry is a folder.
    pub is_dir: bool,
}

/// What choosing a line of the listing does.
#[derive(Debug, Clone)]
pub enum EntryKind {
    /// Go to the parent folder.
    Parent,
    /// Open a subfolder.
    Dir { name: String, path: String },
    /// Decrypt a file.
    AesFile { name: String, path: String },
    /// Leave the browser.
    BackToMenu,
}

/// The lines of a folder listing and what each does.
#[derive(Debug)]
pub struct DirListing {
    pub labels: Vec<String>,
    pub kinds: Vec<EntryKind>,
}

/// Names starting with a dot are not listed.
pub open spec fn is_hidden(name: Seq<char>) -> bool {
    name.len() > 0 && name[0] == '.'
}

/// Whether an entry is listed among the folders (`dirs`) or among the files.
pub open spec fn is_listed(e: DirEntry, dirs: bool) -> bool {
    &&& !is_hidden(e.name@)
    &&& if dirs {
        e.is_dir
    } else {
        !e.is_dir && ends_with(e.name@, ".aes"@)
    }
}

/// The (name, path) of the entries listed among the folders or the files, in
/// the order read.
pub open spec fn listed(es: Seq<DirEntry>, dirs: bool) -> Seq<(Seq<char>, Seq<char>)>
    decreases es.len(),
{
    if es.len() == 0 {
        Seq::empty()
    } else {
        let rest = listed(es.drop_last(), dirs);
        let e = es.last();
        if is_listed(e, dirs) {
            rest.push((e.name@, e.path@))
        } else {
            rest
        }
    }
}

/// Ascending by lowercased name.
pub open spec fn name_sorted(s: Seq<(Seq<char>, Seq<char>)>) -> bool {
    forall|i: int, j: int|
        0 <= i < j < s.len() ==> !seq_lt(
            str_lowercase(#[trigger] s[j].0),
            str_lowercase(#[trigger] s[i].0),
        )
}

/// `p` places each entry of `out` in `src`, and entries whose names are equal
/// once lowercased keep the order they had in `src`.
pub open spec fn stable_witness(
    out: Seq<(Seq<char>, Seq<char>)>,
    src: Seq<(Seq<char>, Seq<char>)>,
    p: Seq<int>,
) -> bool {
    &&& p.len() == out.len()
    &&& forall|i: int| 0 <= i < out.len() ==> 0 <= #[trigger] p[i] < src.len() && out[i] == src[p[i]]
    &&& forall|i: int, j: int|
        0 <= i < j < out.len() && str_lowercase(#[trigger] out[i].0) == str_lowercase(
            #[trigger] out[j].0,
        ) ==> p[i] < p[j]
}

/// `out` holds the entries of `src`, each as often, in ascending order of name;
/// entries with equal lowercased names keep their order in `src` (a stable sort).
pub open spec fn sorted_from(out: Seq<(Seq<char>, Seq<char>)>, src: Seq<(Seq<char>, Seq<char>)>) -> bool {
    &&& out.to_multiset() == src.to_multiset()
    &&& name_sorted(out)
    &&& exists|p: Seq<int>| stable_witness(out, src, p)
}

/// The (name, path) that a line of a listing opens.
pub open spec fn kind_entry(k: EntryKind) -> (Seq<char>, Seq<char>) {
    match k {
        EntryKind::Dir { name, path } => (name@, path@),
        EntryKind::AesFile { name, path } => (name@, path@),
        _ => (Seq::empty(), Seq::empty()),
    }
}

/// The (name, path) of `n` lines of a listing from line `from` on.
pub open spec fn kinds_run(ks: Seq<EntryKind>, from: int, n: int) -> Seq<(Seq<char>, Seq<char>)> {
    Seq::new(n as nat, |i: int| kind_entry(ks[from + i]))
}

/// The label shown for a line.
pub open spec fn kind_label(k: EntryKind) -> Seq<char> {
    match k {
        EntryKind::Parent => "..  (back)"@,
        EntryKind::Dir { name, .. } => "[DIR]  "@ + name@ + "/"@,
        EntryKind::AesFile { name, .. } => "[AES]  "@ + name@,
        EntryKind::BackToMenu => "← Back to main menu"@,
    }
}

/// (name, path) of a pair of strings.
pub open spec fn pair_view(p: (String, String)) -> (Seq<char>, Seq<char>) {
    (p.0@, p.1@)
}

pub open spec fn pairs(v: Seq<(String, String)>) -> Seq<(Seq<char>, Seq<char>)> {
    v.map_values(|p: (String, String)| pair_view(p))
}

/// The label of a line.
fn label_of(k: &EntryKind) -> (r: String)
    ensures
        r@ == kind_label(*k),
{
    proof {
        reveal_strlit("..  (back)");
        reveal_strlit("[DIR]  ");
        reveal_strlit("/");
        reveal_strlit("[AES]  ");
        reveal_strlit("← Back to main menu");
    }
    match k {
        EntryKind::Parent => string_of(&chars_of("..  (back)")),
        EntryKind::Dir { name, .. } => {
            let mut v = chars_of("[DIR]  ");
            append_chars(&mut v, &chars_of(name.as_str()));
            append_chars(&mut v, &chars_of("/"));
            string_of(&v)
        },
        EntryKind::AesFile { name, .. } => {
            let mut v = chars_of("[AES]  ");
            append_chars(&mut v, &chars_of(name.as_str()));
            string_of(&v)
        },
        EntryKind::BackToMenu => string_of(&chars_of("← Back to main menu")),
    }
}

/// Position of the first entry whose lowercased name is smallest.
fn min_index(v: &Vec<(String, String)>) -> (b: usize)
    requires
        v.len() > 0,
    ensures
        b < v.len(),
        forall|j: int|
            0 <= j < v.len() ==> !seq_lt(
                str_lowercase(#[trigger] v@[j].0@),
                str_lowercase(v@[b as int].0@),
            ),
        forall|j: int|
            0 <= j < b ==> seq_lt(
                str_lowercase(v@[b as int].0@),
                str_lowercase(#[trigger] v@[j].0@),
            ),
{
    let mut b: usize = 0;
    let mut kb = chars_of(lowercase(v[0].0.as_str()).as_str());
    let mut j: usize = 1;
    proof {
        crate::strmap::lemma_lt_irrefl(kb@);
    }
    while j < v.len()
        invariant
            1 <= j <= v.len(),
            b < j,
            kb@ == str_lowercase(v@[b as int].0@),
            forall|k: int|
                0 <= k < j ==> !seq_lt(
                    str_lowercase(#[trigger] v@[k].0@),
                    str_lowercase(v@[b as int].0@),
                ),
            forall|k: int|
                0 <= k < b ==> seq_lt(
                    str_lowercase(v@[b as int].0@),
                    str_lowercase(#[trigger] v@[k].0@),
                ),
        decreases v.len() - j,
    {
        let kj = chars_of(lowercase(v[j].0.as_str()).as_str());
        if compare_chars(&kj, &kb) < 0 {
            proof {
                assert forall|k: int| 0 <= k < j + 1 implies !seq_lt(
                    str_lowercase(#[trigger] v@[k].0@),
                    kj@,
                ) by {
                    if k < j && seq_lt(str_lowercase(v@[k].0@), kj@) {
                        lemma_lt_trans(str_lowercase(v@[k].0@), kj@, kb@);
                    }
                    if k == j {
                        crate::strmap::lemma_lt_irrefl(kj@);
                    }
                }
                assert forall|k: int| 0 <= k < j implies seq_lt(
                    kj@,
                    str_lowercase(#[trigger] v@[k].0@),
                ) by {
                    let kk = str_lowercase(v@[k].0@);
                    lemma_lt_total(kk, kb@);
                    if kk != kb@ {
                        lemma_lt_trans(kj@, kb@, kk);
                    }
                }
            }
            b = j;
            kb = kj;
        } else {
            proof {
                crate::strmap::lemma_lt_irrefl(kb@);
            }
        }
        j = j + 1;
    }
    b
}

/// The entries in ascending order of lowercased name; entries whose names
/// are equal once lowercased keep their order (a stable sort).
pub fn sort_by_name(items: Vec<(String, String)>) -> (r: Vec<(String, String)>)
    ensures
        sorted_from(pairs(r@), pairs(items@)),
{
    let ghost src = pairs(items@);
    let mut rem = items;
    let mut out: Vec<(String, String)> = Vec::new();
    let ghost mut ridx: Seq<int> = Seq::new(src.len(), |i: int| i);
    let ghost mut oidx: Seq<int> = Seq::empty();
    assert(pairs(out@).to_multiset() =~= Multiset::empty());
    while rem.len() > 0
        invariant
            pairs(out@).to_multiset().add(pairs(rem@).to_multiset()) == src.to_multiset(),
            name_sorted(pairs(out@)),
            forall|i: int, j: int|
                0 <= i < out@.len() && 0 <= j < rem@.len() ==> !seq_lt(
                    str_lowercase(#[trigger] rem@[j].0@),
                    str_lowercase(#[trigger] out@[i].0@),
                ),
            ridx.len() == rem@.len(),
            forall|j: int|
                0 <= j < rem@.len() ==> 0 <= #[trigger] ridx[j] < src.len() && pair_view(rem@[j])
                    == src[ridx[j]],
            forall|j: int, k: int| 0 <= j < k < rem@.len() ==> #[trigger] ridx[j] < #[trigger] ridx[k],
            stable_witness(pairs(out@), src, oidx),
            forall|i: int, j: int|
                0 <= i < out@.len() && 0 <= j < rem@.len() && str_lowercase(#[trigger] out@[i].0@)
                    == str_lowercase(#[trigger] rem@[j].0@) ==> oidx[i] < ridx[j],
        decreases rem.len(),
    {
        let b = min_index(&rem);
        let ghost old_rem = rem@;
        let ghost old_out = out@;
        let ghost old_ridx = ridx;
        let ghost old_oidx = oidx;
        let it = rem.remove(b);
        out.push(it);
        proof {
            ridx = old_ridx.remove(b as int);
            oidx = old_oidx.push(old_ridx[b as int]);
            let x = pair_view(old_rem[b as int]);
            assert(pairs(rem@) =~= pairs(old_rem).remove(b as int));
            assert(pairs(out@) =~= pairs(old_out).push(x));
            assert(pairs(old_rem)[b as int] == x);
            assert(pairs(old_rem).to_multiset().count(x) > 0) by {
                assert(pairs(old_rem).contains(x));
            }
            assert(pairs(out@).to_multiset().add(pairs(rem@).to_multiset()) =~= pairs(
                old_out,
            ).to_multiset().add(pairs(old_rem).to_multiset()));
            assert forall|i: int, j: int| 0 <= i < j < pairs(out@).len() implies !seq_lt(
                str_lowercase(#[trigger] pairs(out@)[j].0),
                str_lowercase(#[trigger] pairs(out@)[i].0),
            ) by {
                if j < old_out.len() {
                    assert(pairs(out@)[j] == pairs(old_out)[j]);
                    assert(pairs(out@)[i] == pairs(old_out)[i]);
                } else {
                    assert(out@[j] == old_rem[b as int]);
                    assert(out@[i] == old_out[i]);
                }
            }
            assert forall|i: int, j: int| 0 <= i < out@.len() && 0 <= j < rem@.len() implies !seq_lt(
                str_lowercase(#[trigger] rem@[j].0@),
                str_lowercase(#[trigger] out@[i].0@),
            ) by {
                let jj = if j < b { j } else { j + 1 };
                assert(rem@[j] == old_rem[jj]);
                if i < old_out.len() {
                    assert(out@[i] == old_out[i]);
                } else {
                    assert(out@[i] == old_rem[b as int]);
                }
            }
            assert forall|j: int| 0 <= j < rem@.len() implies 0 <= #[trigger] ridx[j] < src.len()
                && pair_view(rem@[j]) == src[ridx[j]] by {
                let jj = if j < b { j } else { j + 1 };
                assert(rem@[j] == old_rem[jj]);
                assert(ridx[j] == old_ridx[jj]);
            }
            assert forall|j: int, k: int| 0 <= j < k < rem@.len() implies #[trigger] ridx[j]
                < #[trigger] ridx[k] by {
                let jj = if j < b { j } else { j + 1 };
                let kk = if k < b { k } else { k + 1 };
                assert(ridx[j] == old_ridx[jj]);
                assert(ridx[k] == old_ridx[kk]);
            }
            // The placement of the output.
            let po = pairs(out@);
            assert forall|i: int| 0 <= i < po.len() implies 0 <= #[trigger] oidx[i] < src.len()
                && po[i] == src[oidx[i]] by {
                if i < old_out.len() {
                    assert(po[i] == pairs(old_out)[i]);
                    assert(oidx[i] == old_oidx[i]);
                } else {
                    assert(po[i] == x);
                }
            }
            assert forall|i: int, j: int|
                0 <= i < j < po.len() && str_lowercase(#[trigger] po[i].0) == str_lowercase(
                    #[trigger] po[j].0,
                ) implies oidx[i] < oidx[j] by {
                if j < old_out.len() {
                    assert(po[i] == pairs(old_out)[i]);
                    assert(po[j] == pairs(old_out)[j]);
                } else {
                    assert(out@[i] == old_out[i]);
                    assert(out@[j] == old_rem[b as int]);
                    assert(oidx[i] == old_oidx[i]);
                }
            }
            assert(stable_witness(po, src, oidx));
            assert forall|i: int, j: int|
                0 <= i < out@.len() && 0 <= j < rem@.len() && str_lowercase(#[trigger] out@[i].0@)
                    == str_lowercase(#[trigger] rem@[j].0@) implies oidx[i] < ridx[j] by {
                let jj = if j < b { j } else { j + 1 };
                assert(rem@[j] == old_rem[jj]);
                assert(ridx[j] == old_ridx[jj]);
                if i < old_out.len() {
                    assert(out@[i] == old_out[i]);
                    assert(oidx[i] == old_oidx[i]);
                } else {
                    assert(out@[i] == old_rem[b as int]);
                    if jj < b {
                        crate::strmap::lemma_lt_irrefl(str_lowercase(old_rem[jj].0@));
                    }
                }
            }
        }
    }
    proof {
        vstd::multiset::lemma_multiset_empty_len(pairs(rem@).to_multiset());
        assert(pairs(out@).to_multiset().add(pairs(rem@).to_multiset()) =~= pairs(
            out@,
        ).to_multiset());
        assert(stable_witness(pairs(out@), src, oidx));
    }
    out
}

/// The lines that list `from` as folders (`dirs`) or as files.
fn push_entries(kinds: &mut Vec<EntryKind>, from: &Vec<(String, String)>, dirs: bool)
    ensures
        final(kinds)@.len() == old(kinds)@.len() + from@.len(),
        forall|i: int| 0 <= i < old(kinds)@.len() ==> #[trigger] final(kinds)@[i] == old(kinds)@[i],
        kinds_run(final(kinds)@, old(kinds)@.len() as int, from@.len() as int) == pairs(from@),
        forall|i: int|
            old(kinds)@.len() <= i < final(kinds)@.len() ==> if dirs {
                #[trigger] final(kinds)@[i] is Dir
            } else {
                final(kinds)@[i] is AesFile
            },
{
    let ghost start = kinds@.len() as int;
    let mut k: usize = 0;
    while k < from.len()
        invariant
            k <= from@.len(),
            start == old(kinds)@.len(),
            kinds@.len() == start + k,
            forall|i: int| 0 <= i < start ==> #[trigger] kinds@[i] == old(kinds)@[i],
            forall|i: int|
                0 <= i < k ==> #[trigger] kind_entry(kinds@[start + i]) == pair_view(from@[i]),
            forall|i: int|
                start <= i < kinds@.len() ==> if dirs {
                    #[trigger] kinds@[i] is Dir
                } else {
                    kinds@[i] is AesFile
                },
        decreases from@.len() - k,
    {
        let name = string_of(&chars_of(from[k].0.as_str()));
        let path = string_of(&chars_of(from[k].1.as_str()));
        if dirs {
            kinds.push(EntryKind::Dir { name, path });
        } else {
            kinds.push(EntryKind::AesFile { name, path });
        }
        k = k + 1;
    }
    assert(kinds_run(kinds@, start, from@.len() as int) =~= pairs(from@));
}

/// The listing of a folder: `..` unless it is the browser's root, its
/// subfolders, then its `.aes` files (both by name, ignoring case, and leaving
/// out names that start with a dot), then the way back to the menu.
pub fn list_directory(entries: &Vec<DirEntry>, at_root: bool) -> (r: DirListing)
    ensures
        ({
            let p: int = if at_root {
                0
            } else {
                1
            };
            let nd = listed(entries@, true).len() as int;
            let nf = listed(entries@, false).len() as int;
            &&& r.kinds@.len() == p + nd + nf + 1
            &&& r.labels@.len() == r.kinds@.len()
            &&& forall|i: int|
                0 <= i < r.labels@.len() ==> #[trigger] r.labels@[i]@ == kind_label(r.kinds@[i])
            &&& !at_root ==> r.kinds@[0] is Parent
            &&& forall|i: int| p <= i < p + nd ==> #[trigger] r.kinds@[i] is Dir
            &&& forall|i: int| p + nd <= i < p + nd + nf ==> #[trigger] r.kinds@[i] is AesFile
            &&& r.kinds@[p + nd + nf] is BackToMenu
            &&& sorted_from(kinds_run(r.kinds@, p, nd), listed(entries@, true))
            &&& sorted_from(kinds_run(r.kinds@, p + nd, nf), listed(entries@, false))
        }),
{
    let mut dirs: Vec<(String, String)> = Vec::new();
    let mut files: Vec<(String, String)> = Vec::new();
    let aes = chars_of(".aes");
    proof {
        reveal_strlit(".aes");
    }
    let mut i: usize = 0;
    assert(entries@.take(0) =~= Seq::<DirEntry>::empty());
    while i < entries.len()
        invariant
            i <= entries@.len(),
            aes@ == ".aes"@,
            pairs(dirs@) == listed(entries@.take(i as int), true),
            pairs(files@) == listed(entries@.take(i as int), false),
        decreases entries@.len() - i,
    {
        let e = &entries[i];
        let nm = chars_of(e.name.as_str());
        let hidden = nm.len() > 0 && nm[0] == '.';
        let ghost d0 = dirs@;
        let ghost f0 = files@;
        proof {
            assert(entries@.take(i + 1).drop_last() =~= entries@.take(i as int));
            assert(entries@.take(i + 1).last() == *e);
        }
        if !hidden {
            let item = (string_of(&nm), string_of(&chars_of(e.path.as_str())));
            if e.is_dir {
                dirs.push(item);
                assert(pairs(dirs@) =~= pairs(d0).push((e.name@, e.path@)));
            } else if ends_with_chars(&nm, &aes) {
                files.push(item);
                assert(pairs(files@) =~= pairs(f0).push((e.name@, e.path@)));
            }
        }
        i = i + 1;
    }
    assert(entries@.take(entries@.len() as int) =~= entries@);
    let sd = sort_by_name(dirs);
    let sf = sort_by_name(files);
    let mut kinds: Vec<EntryKind> = Vec::new();
    if !at_root {
        kinds.push(EntryKind::Parent);
    }
    let ghost k0 = kinds@;
    push_entries(&mut kinds, &sd, true);
    let ghost k1 = kinds@;
    push_entries(&mut kinds, &sf, false);
    let ghost k2 = kinds@;
    kinds.push(EntryKind::BackToMenu);
    proof {
        let p = k0.len() as int;
        let nd = sd@.len() as int;
        let nf = sf@.len() as int;
        assert(kinds_run(kinds@, p, nd) =~= kinds_run(k1, p, nd));
        assert(kinds_run(kinds@, p + nd, nf) =~= kinds_run(k2, p + nd, nf));
        assert(pairs(sd@).len() == nd && pairs(sf@).len() == nf);
        assert(pairs(sd@).to_multiset().len() == nd);
        assert(listed(entries@, true).to_multiset().len() == listed(entries@, true).len());
        assert(listed(entries@, true).len() == nd);
        assert(pairs(sf@).to_multiset().len() == nf);
        assert(listed(entries@, false).to_multiset().len() == listed(entries@, false).len());
        assert(listed(entries@, false).len() == nf);
        assert forall|i: int| p <= i < p + nd implies #[trigger] kinds@[i] is Dir by {
            assert(kinds@[i] == k1[i]);
        }
        assert forall|i: int| p + nd <= i < p + nd + nf implies #[trigger] kinds@[i] is AesFile by {
            assert(kinds@[i] == k2[i]);
        }
        if !at_root {
            assert(kinds@[0] == k0[0]);
        }
    }
    let mut labels: Vec<String> = Vec::new();
    let mut j: usize = 0;
    while j < kinds.len()
        invariant
            j <= kinds@.len(),
            labels@.len() == j,
            forall|i: int| 0 <= i < j ==> #[trigger] labels@[i]@ == kind_label(kinds@[i]),
        decreases kinds@.len() - j,
    {
        labels.push(label_of(&kinds[j]));
        j = j + 1;
    }
    DirListing { labels, kinds }
}

} // verus!
