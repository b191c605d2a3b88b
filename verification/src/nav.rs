//! The navigation-map strategy: turns the navigation document's points into
//! a content list, sorting ascending by `playOrder` (stably) and removing
//! entries whose resolved path duplicates an earlier one.

use vstd::prelude::*;
use crate::content::{ContentEntry, ContentEntryV};
use crate::refres::{resolve_ref, resolve_ref_spec};
use crate::strutil::{parse_decimal, parse_decimal_spec, str_eq};

verus! {

/// A navigation point as the navigation document declares it: an optional
/// `playOrder` attribute, a label (empty when absent), and an optional
/// content-reference.
pub type RawPointV = (Option<Seq<char>>, Seq<char>, Option<Seq<char>>);

/// What parsing and resolving the navigation points yields, in document
/// order: a point with a missing or unparsable `playOrder`, a missing
/// content-reference, or a reference that does not decode is skipped.
pub open spec fn nav_raw_entries_spec(points: Seq<RawPointV>, root: Seq<char>) -> Seq<
    ContentEntryV,
>
    decreases points.len(),
{
    if points.len() == 0 {
        Seq::empty()
    } else {
        let rest = points.drop_first();
        let p = points[0];
        let resolved = match p.0 {
            None => None,
            Some(s) => match parse_decimal_spec(s) {
                None => None,
                Some(ord) => match p.2 {
                    None => None,
                    Some(src) => match resolve_ref_spec(root, src) {
                        None => None,
                        Some(path) => Some(
                            ContentEntryV { order: ord as nat, label: p.1, path: path },
                        ),
                    },
                },
            },
        };
        match resolved {
            None => nav_raw_entries_spec(rest, root),
            Some(e) => seq![e] + nav_raw_entries_spec(rest, root),
        }
    }
}

/// Stable insertion into a sorted sequence: the new entry goes after every
/// entry whose sort key is not above its own.
pub open spec fn insert_sorted_spec(s: Seq<ContentEntryV>, e: ContentEntryV) -> Seq<ContentEntryV>
    decreases s.len(),
{
    if s.len() == 0 {
        seq![e]
    } else if s.last().order <= e.order {
        s.push(e)
    } else {
        insert_sorted_spec(s.drop_last(), e).push(s.last())
    }
}

/// Stable insertion sort ascending by the sort key.
pub open spec fn sort_entries_spec(s: Seq<ContentEntryV>) -> Seq<ContentEntryV>
    decreases s.len(),
{
    if s.len() == 0 {
        Seq::empty()
    } else {
        insert_sorted_spec(sort_entries_spec(s.drop_last()), s.last())
    }
}

/// Whether some entry of `s` has the path `p`.
pub open spec fn has_path(s: Seq<ContentEntryV>, p: Seq<char>) -> bool {
    exists|j: int| 0 <= j < s.len() && s[j].path == p
}

/// Removes every entry whose path already occurred earlier in the sequence,
/// keeping the first occurrence.
pub open spec fn dedup_spec(s: Seq<ContentEntryV>) -> Seq<ContentEntryV>
    decreases s.len(),
{
    if s.len() == 0 {
        Seq::empty()
    } else {
        let d = dedup_spec(s.drop_last());
        if has_path(s.drop_last(), s.last().path) {
            d
        } else {
            d.push(s.last())
        }
    }
}

/// What the navigation-map strategy yields: the surviving points sorted
/// ascending by `playOrder` (document order breaking ties), with later
/// duplicate paths removed.
pub open spec fn nav_contents_spec(points: Seq<RawPointV>, root: Seq<char>) -> Seq<ContentEntryV> {
    dedup_spec(sort_entries_spec(nav_raw_entries_spec(points, root)))
}

proof fn lemma_insert_sorted_at(s: Seq<ContentEntryV>, e: ContentEntryV, j: int)
    requires
        0 <= j <= s.len(),
        forall|k: int| j <= k < s.len() ==> s[k].order > e.order,
        j == 0 || s[j - 1].order <= e.order,
    ensures
        insert_sorted_spec(s, e) == s.take(j).push(e) + s.skip(j),
    decreases s.len(),
{
    if s.len() == 0 {
        assert(s.take(0).push(e) + s.skip(0) =~= seq![e]);
    } else if s.last().order <= e.order {
        assert(j == s.len());
        assert(s.take(j).push(e) + s.skip(j) =~= s.push(e));
    } else {
        assert(j < s.len());
        lemma_insert_sorted_at(s.drop_last(), e, j);
        assert(s.drop_last().take(j) =~= s.take(j));
        assert((s.drop_last().take(j).push(e) + s.drop_last().skip(j)).push(s.last()) =~= s.take(
            j,
        ).push(e) + s.skip(j));
    }
}

/// Inserts an entry into a vector kept sorted ascending by the sort key,
/// after every entry whose key is not above the new one.
fn insert_sorted(v: &mut Vec<ContentEntry>, e: ContentEntry)
    ensures
        final(v).deep_view() == insert_sorted_spec(old(v).deep_view(), e@),
{
    let ghost dv = old(v).deep_view();
    let n = v.len();
    let mut j: usize = n;
    while j > 0 && v[j - 1].order > e.order
        invariant
            0 <= j <= n,
            n == v@.len(),
            dv == v.deep_view(),
            dv.len() == n,
            forall|k: int| j <= k < n ==> dv[k].order > e@.order,
        decreases j,
    {
        j = j - 1;
    }
    proof {
        lemma_insert_sorted_at(dv, e@, j as int);
    }
    let ghost ev = e@;
    v.insert(j, e);
    proof {
        assert(v.deep_view() =~= dv.take(j as int).push(ev) + dv.skip(j as int));
    }
}

/// Sorts the entries ascending by the sort key, stably.
fn sort_entries(v: &Vec<ContentEntry>) -> (r: Vec<ContentEntry>)
    ensures
        r.deep_view() == sort_entries_spec(v.deep_view()),
{
    let ghost dv = v.deep_view();
    let n = v.len();
    let mut out: Vec<ContentEntry> = Vec::new();
    let mut i: usize = 0;
    proof {
        assert(dv.take(0) =~= Seq::<ContentEntryV>::empty());
        assert(out.deep_view() =~= sort_entries_spec(dv.take(0)));
    }
    while i < n
        invariant
            0 <= i <= n,
            n == v@.len(),
            dv == v.deep_view(),
            dv.len() == n,
            out.deep_view() == sort_entries_spec(dv.take(i as int)),
        decreases n - i,
    {
        proof {
            assert(dv.take(i + 1).drop_last() =~= dv.take(i as int));
            assert(dv.take(i + 1).last() == dv[i as int]);
        }
        insert_sorted(&mut out, v[i].duplicate());
        i = i + 1;
    }
    proof {
        assert(dv.take(n as int) =~= dv);
    }
    out
}

/// Removes every entry whose path already occurred earlier, keeping the
/// first occurrence.
fn dedup_entries(v: &Vec<ContentEntry>) -> (r: Vec<ContentEntry>)
    ensures
        r.deep_view() == dedup_spec(v.deep_view()),
{
    let ghost dv = v.deep_view();
    let n = v.len();
    let mut out: Vec<ContentEntry> = Vec::new();
    let mut i: usize = 0;
    proof {
        assert(dv.take(0) =~= Seq::<ContentEntryV>::empty());
        assert(out.deep_view() =~= dedup_spec(dv.take(0)));
    }
    while i < n
        invariant
            0 <= i <= n,
            n == v@.len(),
            dv == v.deep_view(),
            dv.len() == n,
            out.deep_view() == dedup_spec(dv.take(i as int)),
        decreases n - i,
    {
        let mut dup = false;
        let mut j: usize = 0;
        while j < i
            invariant
                0 <= j <= i < n,
                n == v@.len(),
                dv == v.deep_view(),
                dv.len() == n,
                dup ==> has_path(dv.take(i as int), dv[i as int].path),
                !dup ==> forall|k: int| 0 <= k < j ==> dv[k].path != dv[i as int].path,
            decreases i - j,
        {
            if !dup && str_eq(v[j].path.as_str(), v[i].path.as_str()) {
                dup = true;
                proof {
                    assert(dv.take(i as int)[j as int].path == dv[i as int].path);
                }
            }
            j = j + 1;
        }
        proof {
            assert(dv.take(i + 1).drop_last() =~= dv.take(i as int));
            assert(dv.take(i + 1).last() == dv[i as int]);
            if !dup {
                assert(!has_path(dv.take(i as int), dv[i as int].path)) by {
                    if has_path(dv.take(i as int), dv[i as int].path) {
                        let w = choose|w: int|
                            0 <= w < i && dv.take(i as int)[w].path == dv[i as int].path;
                        assert(dv[w].path == dv[i as int].path);
                    }
                }
            }
        }
        let ghost pre = out.deep_view();
        if !dup {
            out.push(v[i].duplicate());
            proof {
                assert(out.deep_view() =~= pre.push(dv[i as int]));
            }
        }
        i = i + 1;
    }
    proof {
        assert(dv.take(n as int) =~= dv);
    }
    out
}

/// Builds the content list from the navigation points: parse and resolve
/// each point, sort ascending by `playOrder`, drop later duplicate paths.
pub fn resolve_nav(points: &Vec<(Option<String>, String, Option<String>)>, root: &str) -> (r: Vec<
    ContentEntry,
>)
    ensures
        r.deep_view() == nav_contents_spec(points.deep_view(), root@),
{
    let ghost pv = points.deep_view();
    let n = points.len();
    let mut raw: Vec<ContentEntry> = Vec::new();
    let mut i: usize = 0;
    proof {
        assert(pv.skip(0) =~= pv);
        assert(raw.deep_view() + nav_raw_entries_spec(pv, root@) =~= nav_raw_entries_spec(
            pv,
            root@,
        ));
    }
    while i < n
        invariant
            0 <= i <= n,
            n == points@.len(),
            pv == points.deep_view(),
            pv.len() == n,
            nav_raw_entries_spec(pv, root@) == raw.deep_view() + nav_raw_entries_spec(
                pv.skip(i as int),
                root@,
            ),
        decreases n - i,
    {
        let ghost s = pv.skip(i as int);
        proof {
            assert(s[0] == pv[i as int]);
            assert(s.drop_first() =~= pv.skip(i + 1));
        }
        let point = &points[i];
        let resolved: Option<ContentEntry> = match &point.0 {
            None => None,
            Some(ord_s) => match parse_decimal(ord_s.as_str()) {
                None => None,
                Some(ord) => match &point.2 {
                    None => None,
                    Some(src) => match resolve_ref(root, src.as_str()) {
                        None => None,
                        Some(path) => Some(
                            ContentEntry {
                                order: ord as usize,
                                label: point.1.clone(),
                                path: path,
                            },
                        ),
                    },
                },
            },
        };
        let ghost pre = raw.deep_view();
        match resolved {
            None => (),
            Some(e) => {
                let ghost ev = e@;
                raw.push(e);
                proof {
                    assert(raw.deep_view() =~= pre.push(ev));
                    assert(pre.push(ev) =~= pre + seq![ev]);
                }
            },
        }
        i = i + 1;
    }
    proof {
        assert(pv.skip(n as int) =~= Seq::<RawPointV>::empty());
        assert(raw.deep_view() + nav_raw_entries_spec(pv.skip(n as int), root@) =~= raw.deep_view());
    }
    let sorted = sort_entries(&raw);
    dedup_entries(&sorted)
}

} // verus!
