//! Directory listings: the order entries are shown in, and the order of the files a
//! matching walk found.
use vstd::prelude::*;

use crate::order::{lemma_lt_is_lexicographic, lemma_lt_asymmetric, lemma_lt_irreflexive, lemma_lt_transitive, str_lt, string_lt};
use crate::tools::dispatch::MatchedFile;

verus! {

broadcast use vstd::seq_lib::group_to_multiset_ensures;

/// One entry of a directory listing.
pub struct FileEntry {
    pub name: String,
    pub path: String,
    pub is_dir: bool,
    pub size: u64,
}

/// `a` is listed before `b`: directories come first, then entries by name.
pub open spec fn entry_before(a: FileEntry, b: FileEntry) -> bool {
    (a.is_dir && !b.is_dir) || (a.is_dir == b.is_dir && str_lt(a.name@, b.name@))
}

/// No entry is listed after one it should precede.
pub open spec fn entries_sorted(s: Seq<FileEntry>) -> bool {
    forall|i: int, j: int| 0 <= i < j < s.len() ==> !entry_before(#[trigger] s[j], #[trigger] s[i])
}

/// A sorted listing puts directories before files, and within each kind no name comes
/// after one that is lexicographically greater: there is no pair where the later name
/// differs from the earlier first at a smaller character, or is a proper prefix of it.
pub proof fn lemma_listing_order(s: Seq<FileEntry>)
    requires
        entries_sorted(s),
    ensures
        forall|i: int, j: int|
            0 <= i < j < s.len() ==> (#[trigger] s[i].is_dir || !(#[trigger] s[j]).is_dir),
        forall|i: int, j: int, k: int|
            #![trigger s[i], s[j], s[j].name@.take(k)]
            0 <= i < j < s.len() && s[i].is_dir == s[j].is_dir && 0 <= k <= s[j].name@.len() && k
                <= s[i].name@.len() && s[j].name@.take(k) == s[i].name@.take(k) ==> !((k
                < s[j].name@.len() && k < s[i].name@.len() && s[j].name@[k] < s[i].name@[k]) || (k
                == s[j].name@.len() && k < s[i].name@.len())),
{
    assert forall|i: int, j: int, k: int|
        #![trigger s[i], s[j], s[j].name@.take(k)]
        0 <= i < j < s.len() && s[i].is_dir == s[j].is_dir && 0 <= k <= s[j].name@.len() && k
            <= s[i].name@.len() && s[j].name@.take(k) == s[i].name@.take(k) implies !((k
            < s[j].name@.len() && k < s[i].name@.len() && s[j].name@[k] < s[i].name@[k]) || (k
            == s[j].name@.len() && k < s[i].name@.len())) by {
        assert(!entry_before(s[j], s[i]));
        lemma_lt_is_lexicographic(s[j].name@, s[i].name@);
    }
    assert forall|i: int, j: int| 0 <= i < j < s.len() implies (#[trigger] s[i].is_dir || !(
    #[trigger] s[j]).is_dir) by {
        assert(!entry_before(s[j], s[i]));
    }
}

proof fn lemma_entry_order(a: FileEntry, b: FileEntry, c: FileEntry)
    ensures
        !entry_before(a, a),
        entry_before(a, b) ==> !entry_before(b, a),
        entry_before(a, b) && entry_before(b, c) ==> entry_before(a, c),
{
    lemma_lt_irreflexive(a.name@);
    lemma_lt_asymmetric(a.name@, b.name@);
    if entry_before(a, b) && entry_before(b, c) && a.is_dir == b.is_dir && b.is_dir == c.is_dir {
        lemma_lt_transitive(a.name@, b.name@, c.name@);
    }
}

fn entry_lt(a: &FileEntry, b: &FileEntry) -> (r: bool)
    ensures
        r == entry_before(*a, *b),
{
    if a.is_dir != b.is_dir {
        a.is_dir
    } else {
        string_lt(a.name.as_str(), b.name.as_str())
    }
}

/// `entries` in listing order: directories first, then by name.
pub fn sort_entries(entries: Vec<FileEntry>) -> (r: Vec<FileEntry>)
    ensures
        r@.to_multiset() == entries@.to_multiset(),
        entries_sorted(r@),
{
    let mut rest = entries;
    let mut out: Vec<FileEntry> = Vec::new();
    assert(out@.to_multiset().add(rest@.to_multiset()) =~= entries@.to_multiset());
    while rest.len() > 0
        invariant
            out@.to_multiset().add(rest@.to_multiset()) == entries@.to_multiset(),
            entries_sorted(out@),
        decreases rest.len(),
    {
        let ghost rest0 = rest@;
        let e = rest.remove(0);
        assert(rest0.remove(0) == rest@);
        let mut p: usize = 0;
        while p < out.len() && !entry_lt(&e, &out[p])
            invariant
                0 <= p <= out.len(),
                forall|k: int| 0 <= k < p ==> !entry_before(e, #[trigger] out@[k]),
            decreases out.len() - p,
        {
            p += 1;
        }
        let ghost out0 = out@;
        out.insert(p, e);
        assert(out@ == out0.insert(p as int, e));
        assert forall|i: int, j: int| 0 <= i < j < out@.len() implies !entry_before(
            #[trigger] out@[j],
            #[trigger] out@[i],
        ) by {
            if j < p {
                assert(out@[i] == out0[i] && out@[j] == out0[j]);
            } else if j == p {
                assert(out@[i] == out0[i]);
                lemma_entry_order(out0[i], e, e);
            } else if i < p {
                assert(out@[i] == out0[i] && out@[j] == out0[j - 1]);
            } else if i == p {
                assert(out@[j] == out0[j - 1]);
                assert(entry_before(e, out0[p as int]));
                lemma_entry_order(out0[j - 1], e, out0[p as int]);
                if j - 1 > p {
                    assert(!entry_before(out0[j - 1], out0[p as int]));
                } else {
                    lemma_entry_order(e, out0[p as int], e);
                }
            } else {
                assert(out@[i] == out0[i - 1] && out@[j] == out0[j - 1]);
            }
        }
        assert(rest0.to_multiset() == rest@.to_multiset().insert(e)) by {
            vstd::seq_lib::to_multiset_remove(rest0, 0);
            assert(rest0.to_multiset().remove(e).insert(e) =~= rest0.to_multiset());
        }
        proof {
            vstd::seq_lib::to_multiset_insert(out0, p as int, e);
        }
        assert(out@.to_multiset().add(rest@.to_multiset()) =~= out0.to_multiset().add(
            rest0.to_multiset(),
        ));
    }
    out
}

/// No matched file is listed after one whose path sorts before it.
pub open spec fn paths_sorted(s: Seq<MatchedFile>) -> bool {
    forall|i: int, j: int|
        0 <= i < j < s.len() ==> !str_lt((#[trigger] s[j]).path@, (#[trigger] s[i]).path@)
}

/// The matched files in the order of their paths.
pub fn sort_matches(files: Vec<MatchedFile>) -> (r: Vec<MatchedFile>)
    ensures
        r@.to_multiset() == files@.to_multiset(),
        paths_sorted(r@),
{
    let mut rest = files;
    let mut out: Vec<MatchedFile> = Vec::new();
    assert(out@.to_multiset().add(rest@.to_multiset()) =~= files@.to_multiset());
    while rest.len() > 0
        invariant
            out@.to_multiset().add(rest@.to_multiset()) == files@.to_multiset(),
            paths_sorted(out@),
        decreases rest.len(),
    {
        let ghost rest0 = rest@;
        let e = rest.remove(0);
        assert(rest0.remove(0) == rest@);
        let mut p: usize = 0;
        while p < out.len() && !string_lt(e.path.as_str(), out[p].path.as_str())
            invariant
                0 <= p <= out.len(),
                forall|k: int| 0 <= k < p ==> !str_lt(e.path@, (#[trigger] out@[k]).path@),
            decreases out.len() - p,
        {
            p += 1;
        }
        let ghost out0 = out@;
        out.insert(p, e);
        assert(out@ == out0.insert(p as int, e));
        assert forall|i: int, j: int| 0 <= i < j < out@.len() implies !str_lt(
            (#[trigger] out@[j]).path@,
            (#[trigger] out@[i]).path@,
        ) by {
            if j < p {
                assert(out@[i] == out0[i] && out@[j] == out0[j]);
            } else if j == p {
                assert(out@[i] == out0[i]);
            } else if i < p {
                assert(out@[i] == out0[i] && out@[j] == out0[j - 1]);
            } else if i == p {
                assert(out@[j] == out0[j - 1]);
                let a = out0[j - 1].path@;
                let b = e.path@;
                let c = out0[p as int].path@;
                assert(str_lt(b, c));
                if str_lt(a, b) {
                    lemma_lt_transitive(a, b, c);
                    if j - 1 > p {
                        assert(!str_lt(out0[j - 1].path@, out0[p as int].path@));
                    } else {
                        lemma_lt_irreflexive(a);
                    }
                }
            } else {
                assert(out@[i] == out0[i - 1] && out@[j] == out0[j - 1]);
            }
        }
        assert(rest0.to_multiset() == rest@.to_multiset().insert(e)) by {
            vstd::seq_lib::to_multiset_remove(rest0, 0);
            assert(rest0.to_multiset().remove(e).insert(e) =~= rest0.to_multiset());
        }
        proof {
            vstd::seq_lib::to_multiset_insert(out0, p as int, e);
        }
        assert(out@.to_multiset().add(rest@.to_multiset()) =~= out0.to_multiset().add(
            rest0.to_multiset(),
        ));
    }
    out
}

} // verus!
