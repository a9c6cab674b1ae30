//! Sorting a list of records by path and removing exact duplicates.

use vstd::prelude::*;
use crate::record::{
    lemma_lex_le_total, lemma_lex_le_transitive, lex_le, views, FileInfo, FileInfoView,
};

verus! {

/// The records come in ascending order of their paths.
pub open spec fn sorted_by_path(s: Seq<FileInfoView>) -> bool {
    forall|i: int, j: int| 0 <= i < j < s.len() ==> lex_le(s[i].path, s[j].path)
}

/// No two records of the list agree on all four fields.
pub open spec fn no_full_duplicates(s: Seq<FileInfoView>) -> bool {
    forall|i: int, j: int| 0 <= i < j < s.len() ==> s[i] != s[j]
}

/// Where a record with path `p` enters a list: before the first record whose
/// path is not smaller than `p`, or at the end.
pub open spec fn insert_pos(s: Seq<FileInfoView>, p: Seq<u8>) -> int
    decreases s.len(),
{
    if s.len() == 0 {
        0
    } else if lex_le(p, s[0].path) {
        0
    } else {
        1 + insert_pos(s.drop_first(), p)
    }
}

/// The list with `r` added: unchanged if it holds `r` already, else with `r`
/// at its place in the order of paths.
pub open spec fn with_record(s: Seq<FileInfoView>, r: FileInfoView) -> Seq<FileInfoView> {
    if s.contains(r) {
        s
    } else {
        s.insert(insert_pos(s, r.path), r)
    }
}

/// The normal form of a list of records: its records sorted by path, each
/// exact duplicate kept once. Records that share a path stand in the order
/// in which each of them came last.
pub open spec fn normalized(s: Seq<FileInfoView>) -> Seq<FileInfoView>
    decreases s.len(),
{
    if s.len() == 0 {
        Seq::empty()
    } else {
        with_record(normalized(s.drop_first()), s[0])
    }
}

/// `insert_pos` lies within the list, every record before it has a smaller
/// path, and the record at it, if any, has not.
pub proof fn lemma_insert_pos(s: Seq<FileInfoView>, p: Seq<u8>)
    ensures
        0 <= insert_pos(s, p) <= s.len(),
        forall|j: int| 0 <= j < insert_pos(s, p) ==> !lex_le(p, #[trigger] s[j].path),
        insert_pos(s, p) < s.len() ==> lex_le(p, s[insert_pos(s, p)].path),
    decreases s.len(),
{
    if s.len() > 0 && !lex_le(p, s[0].path) {
        let t = s.drop_first();
        lemma_insert_pos(t, p);
        assert forall|j: int| 0 <= j < insert_pos(s, p) implies !lex_le(
            p,
            #[trigger] s[j].path,
        ) by {
            if j > 0 {
                assert(s[j] == t[j - 1]);
            }
        }
        if insert_pos(s, p) < s.len() {
            assert(s[insert_pos(s, p)] == t[insert_pos(t, p)]);
        }
    }
}

/// The index that splits a list into the records with a smaller path than `p`
/// and a first record without one is `insert_pos`.
pub proof fn lemma_insert_pos_is(s: Seq<FileInfoView>, p: Seq<u8>, i: int)
    requires
        0 <= i <= s.len(),
        forall|j: int| 0 <= j < i ==> !lex_le(p, #[trigger] s[j].path),
        i < s.len() ==> lex_le(p, s[i].path),
    ensures
        insert_pos(s, p) == i,
    decreases s.len(),
{
    if i > 0 {
        let t = s.drop_first();
        assert(!lex_le(p, s[0].path));
        assert forall|j: int| 0 <= j < i - 1 implies !lex_le(p, #[trigger] t[j].path) by {
            assert(t[j] == s[j + 1]);
        }
        lemma_insert_pos_is(t, p, i - 1);
    }
}

/// Adding a record to a sorted list without duplicates leaves it so, and the
/// list then holds what it held and the record.
pub proof fn lemma_with_record(s: Seq<FileInfoView>, r: FileInfoView)
    requires
        sorted_by_path(s),
        no_full_duplicates(s),
    ensures
        sorted_by_path(with_record(s, r)),
        no_full_duplicates(with_record(s, r)),
        forall|x: FileInfoView| with_record(s, r).contains(x) <==> (s.contains(x) || x == r),
{
    let t = with_record(s, r);
    if !s.contains(r) {
        let i = insert_pos(s, r.path);
        lemma_insert_pos(s, r.path);
        assert forall|a: int, b: int| 0 <= a < b < t.len() implies lex_le(
            t[a].path,
            t[b].path,
        ) by {
            if a == i {
                assert(t[b] == s[b - 1]);
                if b - 1 > i {
                    lemma_lex_le_transitive(r.path, s[i].path, s[b - 1].path);
                }
            } else if b == i {
                assert(t[a] == s[a]);
                lemma_lex_le_total(r.path, s[a].path);
            } else {
                let a0 = if a < i { a } else { a - 1 };
                let b0 = if b < i { b } else { b - 1 };
                assert(t[a] == s[a0] && t[b] == s[b0]);
            }
        }
        assert forall|a: int, b: int| 0 <= a < b < t.len() implies t[a] != t[b] by {
            let a0 = if a < i { a } else { a - 1 };
            let b0 = if b < i { b } else { b - 1 };
            if a == i {
                assert(t[b] == s[b0]);
                assert(s.contains(s[b0]));
            } else if b == i {
                assert(t[a] == s[a0]);
                assert(s.contains(s[a0]));
            } else {
                assert(t[a] == s[a0] && t[b] == s[b0]);
            }
        }
        assert forall|x: FileInfoView| t.contains(x) <==> (s.contains(x) || x == r) by {
            if t.contains(x) {
                let k = choose|k: int| 0 <= k < t.len() && t[k] == x;
                if k < i {
                    assert(s[k] == x);
                } else if k > i {
                    assert(s[k - 1] == x);
                }
            }
            if s.contains(x) {
                let k = choose|k: int| 0 <= k < s.len() && s[k] == x;
                if k < i {
                    assert(t[k] == x);
                } else {
                    assert(t[k + 1] == x);
                }
            }
            if x == r {
                assert(t[i] == x);
            }
        }
    }
}

/// The normal form is sorted by path: each record's path is no greater than
/// that of any record after it, so of the next one too.
pub proof fn lemma_normalized_sorted(s: Seq<FileInfoView>)
    ensures
        sorted_by_path(normalized(s)),
        forall|i: int|
            0 <= i && i + 1 < normalized(s).len() ==> lex_le(
                #[trigger] normalized(s)[i].path,
                normalized(s)[i + 1].path,
            ),
    decreases s.len(),
{
    if s.len() > 0 {
        lemma_normalized_sorted(s.drop_first());
        lemma_normalized_no_full_duplicates(s.drop_first());
        lemma_with_record(normalized(s.drop_first()), s[0]);
    }
}

/// The normal form holds no two records that agree on all four fields.
pub proof fn lemma_normalized_no_full_duplicates(s: Seq<FileInfoView>)
    ensures
        no_full_duplicates(normalized(s)),
    decreases s.len(),
{
    if s.len() > 0 {
        lemma_normalized_sorted(s.drop_first());
        lemma_normalized_no_full_duplicates(s.drop_first());
        lemma_with_record(normalized(s.drop_first()), s[0]);
    }
}

/// The normal form holds exactly the records of the list: none is lost and
/// none is made up.
pub proof fn lemma_normalized_same_records(s: Seq<FileInfoView>)
    ensures
        forall|x: FileInfoView| normalized(s).contains(x) <==> s.contains(x),
    decreases s.len(),
{
    if s.len() > 0 {
        let t = s.drop_first();
        lemma_normalized_same_records(t);
        lemma_normalized_sorted(t);
        lemma_normalized_no_full_duplicates(t);
        lemma_with_record(normalized(t), s[0]);
        assert forall|x: FileInfoView| normalized(s).contains(x) <==> s.contains(x) by {
            if s.contains(x) {
                let k = choose|k: int| 0 <= k < s.len() && s[k] == x;
                if k > 0 {
                    assert(t[k - 1] == x);
                }
            }
            if t.contains(x) {
                let k = choose|k: int| 0 <= k < t.len() && t[k] == x;
                assert(s[k + 1] == x);
            }
            assert(s[0] == x ==> s.contains(x));
        }
    }
}

/// Two records with one path that differ in another field are both kept.
pub proof fn lemma_normalized_keeps_shared_paths(
    s: Seq<FileInfoView>,
    a: FileInfoView,
    b: FileInfoView,
)
    requires
        s.contains(a),
        s.contains(b),
        a.path == b.path,
        a != b,
    ensures
        normalized(s).contains(a),
        normalized(s).contains(b),
        exists|i: int, j: int|
            0 <= i < normalized(s).len() && 0 <= j < normalized(s).len() && i != j
                && normalized(s)[i] == a && normalized(s)[j] == b,
{
    lemma_normalized_same_records(s);
    let n = normalized(s);
    let i = choose|i: int| 0 <= i < n.len() && n[i] == a;
    let j = choose|j: int| 0 <= j < n.len() && n[j] == b;
    assert(0 <= i < n.len() && 0 <= j < n.len() && i != j && n[i] == a && n[j] == b);
}

/// A list that is sorted by path and free of exact duplicates is its own
/// normal form.
pub proof fn lemma_normalized_fixes_normal(s: Seq<FileInfoView>)
    requires
        sorted_by_path(s),
        no_full_duplicates(s),
    ensures
        normalized(s) == s,
    decreases s.len(),
{
    if s.len() > 0 {
        let t = s.drop_first();
        assert forall|i: int, j: int| 0 <= i < j < t.len() implies lex_le(
            t[i].path,
            t[j].path,
        ) && t[i] != t[j] by {
            assert(t[i] == s[i + 1] && t[j] == s[j + 1]);
        }
        lemma_normalized_fixes_normal(t);
        if t.contains(s[0]) {
            let k = choose|k: int| 0 <= k < t.len() && t[k] == s[0];
            assert(s[k + 1] == s[0]);
        }
        if t.len() > 0 {
            assert(t[0] == s[1]);
        }
        lemma_insert_pos_is(t, s[0].path, 0);
        assert(t.insert(0, s[0]) =~= s);
    } else {
        assert(normalized(s) =~= s);
    }
}

/// Normalizing twice gives what normalizing once gives.
pub proof fn lemma_normalized_idempotent(s: Seq<FileInfoView>)
    ensures
        normalized(normalized(s)) == normalized(s),
{
    lemma_normalized_sorted(s);
    lemma_normalized_no_full_duplicates(s);
    lemma_normalized_fixes_normal(normalized(s));
}

/// Whether the list holds a record equal to `f` on all four fields.
pub fn holds_record(files: &Vec<FileInfo>, f: &FileInfo) -> (r: bool)
    ensures
        r == views(files@).contains(f@),
{
    let mut i: usize = 0;
    while i < files.len()
        invariant
            i <= files.len(),
            forall|k: int| 0 <= k < i ==> views(files@)[k] != f@,
        decreases files.len() - i,
    {
        if files[i].same(f) {
            assert(views(files@)[i as int] == f@);
            return true;
        }
        i += 1;
    }
    false
}

/// Adds a record to a list: nothing if the list holds it already, else at its
/// place in the order of paths.
pub fn add_record(files: &mut Vec<FileInfo>, f: FileInfo)
    ensures
        views(final(files)@) == with_record(views(old(files)@), f@),
{
    if holds_record(files, &f) {
        return ;
    }
    let ghost s = views(files@);
    let mut i: usize = 0;
    while i < files.len() && !f.path_le(&files[i])
        invariant
            i <= files.len(),
            s == views(files@),
            forall|j: int| 0 <= j < i ==> !lex_le(f@.path, #[trigger] s[j].path),
        decreases files.len() - i,
    {
        i += 1;
    }
    proof {
        lemma_insert_pos_is(s, f@.path, i as int);
    }
    files.insert(i, f);
    assert(views(files@) =~= s.insert(i as int, f@));
}

/// Sorts the records by path and removes exact duplicates. Records that share
/// a path and differ elsewhere are all kept.
pub fn normalize(files: Vec<FileInfo>) -> (out: Vec<FileInfo>)
    ensures
        views(out@) == normalized(views(files@)),
        sorted_by_path(views(out@)),
        no_full_duplicates(views(out@)),
        forall|x: FileInfoView| views(out@).contains(x) <==> views(files@).contains(x),
{
    let ghost orig = views(files@);
    let mut rest = files;
    let mut out: Vec<FileInfo> = Vec::new();
    assert(orig.skip(orig.len() as int) =~= Seq::empty());
    assert(views(out@) =~= Seq::empty());
    while rest.len() > 0
        invariant
            rest.len() <= orig.len(),
            views(rest@) == orig.take(rest.len() as int),
            views(out@) == normalized(orig.skip(rest.len() as int)),
        decreases rest.len(),
    {
        let ghost n = rest.len() as int;
        let f = rest.pop().unwrap();
        proof {
            let tail = orig.skip(n - 1);
            assert(views(rest@) =~= orig.take(n - 1));
            assert(f@ == orig.take(n)[n - 1]);
            assert(tail[0] == f@);
            assert(tail.drop_first() =~= orig.skip(n));
        }
        add_record(&mut out, f);
    }
    proof {
        assert(orig.skip(0) =~= orig);
        lemma_normalized_sorted(orig);
        lemma_normalized_no_full_duplicates(orig);
        lemma_normalized_same_records(orig);
    }
    out
}

} // verus!

verus! {

/// Every record of the list meets `p`.
pub open spec fn all_records(s: Seq<FileInfoView>, p: spec_fn(FileInfoView) -> bool) -> bool {
    forall|i: int| 0 <= i < s.len() ==> p(#[trigger] s[i])
}

/// What holds of every record of a list holds of every record of its normal
/// form.
pub proof fn lemma_normalized_all(s: Seq<FileInfoView>, p: spec_fn(FileInfoView) -> bool)
    requires
        all_records(s, p),
    ensures
        all_records(normalized(s), p),
{
    lemma_normalized_same_records(s);
    let n = normalized(s);
    assert forall|i: int| 0 <= i < n.len() implies p(#[trigger] n[i]) by {
        assert(n.contains(n[i]));
        assert(s.contains(n[i]));
        let k = choose|k: int| 0 <= k < s.len() && s[k] == n[i];
        assert(p(s[k]));
    }
}

} // verus!
