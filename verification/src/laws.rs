//! Laws of the library, stated over the same spec functions that the
//! executable functions' contracts use, and proved once for all inputs.

use vstd::prelude::*;
use crate::book::{book_from_container_of, book_of, epub2txt_spec, rendered_spec};
use crate::content::{manifest_lookup_spec, spine_entries_spec, ContentEntryV, RawItemV};
use crate::dom::first_text_of;
use crate::error::EpubError;
use crate::nav::{dedup_spec, has_path, insert_sorted_spec, nav_contents_spec,
    nav_raw_entries_spec, sort_entries_spec, RawPointV};
use crate::render::header_spec;
use crate::zipio::zip_entry;

verus! {

/// Law: a successful emission begins with exactly the three metadata lines
/// in title/author/description order, each trimmed — the header block is a
/// prefix of the output.
pub proof fn lemma_output_begins_with_header(
    data: Seq<u8>,
    meta: (Seq<char>, Seq<char>, Seq<char>),
    entries: Seq<ContentEntryV>,
)
    requires
        rendered_spec(data, meta, entries) is Ok,
    ensures
        ({
            let out = rendered_spec(data, meta, entries)->Ok_0;
            let h = header_spec(meta.0, meta.1, meta.2);
            out.len() >= h.len() && out.take(h.len() as int) == h
        }),
{
    let out = rendered_spec(data, meta, entries)->Ok_0;
    let h = header_spec(meta.0, meta.1, meta.2);
    assert(out.take(h.len() as int) =~= h);
}

/// Law: a successful conversion run's whole output begins with the header
/// built from the book's resolved metadata.
pub proof fn lemma_conversion_begins_with_header(b: Seq<u8>)
    requires
        epub2txt_spec(b) is Ok,
    ensures
        ({
            let out = epub2txt_spec(b)->Ok_0;
            let meta = book_from_container_of(b)->Ok_0.0;
            let h = header_spec(meta.0, meta.1, meta.2);
            book_from_container_of(b) is Ok && out.len() >= h.len() && out.take(h.len() as int)
                == h
        }),
{
    let meta = book_from_container_of(b)->Ok_0.0;
    let entries = book_from_container_of(b)->Ok_0.1;
    lemma_output_begins_with_header(b, meta, entries);
}

/// Law: an archive whose package document declares no title fails with the
/// title-missing error (and, by `epub2txt`'s contract, writes no output).
pub proof fn lemma_missing_title_fails(data: Seq<u8>, opf: Seq<char>)
    requires
        zip_entry(data, opf) is Some,
        first_text_of(zip_entry(data, opf)->0, "dc\\:title"@) is None,
    ensures
        book_of(data, opf) == Err::<
            ((Seq<char>, Seq<char>, Seq<char>), Seq<ContentEntryV>),
            EpubError,
        >(EpubError::NoTitle),
{
}

/// Law: a spine every one of whose itemrefs names a missing manifest id
/// resolves to nothing.
pub proof fn lemma_unresolved_spine_is_empty(
    items: Seq<RawItemV>,
    refs: Seq<Option<Seq<char>>>,
    root: Seq<char>,
    k: nat,
)
    requires
        forall|i: int|
            0 <= i < refs.len() ==> (#[trigger] refs[i] matches Some(id) ==> manifest_lookup_spec(
                items,
                id,
            ) is None),
    ensures
        spine_entries_spec(items, refs, root, k).len() == 0,
    decreases refs.len(),
{
    if refs.len() > 0 {
        assert(refs[0] == refs.drop_first().push(refs[0]).last());
        lemma_unresolved_spine_is_empty(items, refs.drop_first(), root, k);
    }
}

/// Law: when every spine itemref of a package references a missing manifest
/// id, construction fails with the empty-content-list error.
pub proof fn lemma_all_unresolvable_fails(data: Seq<u8>, opf: Seq<char>)
    requires
        zip_entry(data, opf) is Some,
        first_text_of(zip_entry(data, opf)->0, "dc\\:title"@) is Some,
        ({
            let b = zip_entry(data, opf)->0;
            let items = crate::dom::attr_pairs_of(b, "item"@, "id"@, "href"@);
            let refs = crate::dom::attr_values_of(b, "itemref"@, "idref"@);
            refs.len() > 0 && forall|i: int|
                0 <= i < refs.len() ==> (#[trigger] refs[i] matches Some(id)
                    ==> manifest_lookup_spec(items, id) is None)
        }),
    ensures
        book_of(data, opf) == Err::<
            ((Seq<char>, Seq<char>, Seq<char>), Seq<ContentEntryV>),
            EpubError,
        >(EpubError::EmptySpine),
{
    let b = zip_entry(data, opf)->0;
    let items = crate::dom::attr_pairs_of(b, "item"@, "id"@, "href"@);
    let refs = crate::dom::attr_values_of(b, "itemref"@, "idref"@);
    lemma_unresolved_spine_is_empty(items, refs, crate::strutil::parent_dir_spec(opf), 0);
}

/// Law: the spine strategy's sort keys are positional — the entry at
/// position `m` carries order `k + m`, so the list is ascending by order.
pub proof fn lemma_spine_orders_positional(
    items: Seq<RawItemV>,
    refs: Seq<Option<Seq<char>>>,
    root: Seq<char>,
    k: nat,
)
    ensures
        forall|m: int|
            0 <= m < spine_entries_spec(items, refs, root, k).len()
                ==> #[trigger] spine_entries_spec(items, refs, root, k)[m].order == k + m,
        sorted_by_order(spine_entries_spec(items, refs, root, k)),
    decreases refs.len(),
{
    if refs.len() > 0 {
        lemma_spine_orders_positional(items, refs.drop_first(), root, k);
        lemma_spine_orders_positional(items, refs.drop_first(), root, (k + 1) as nat);
    }
}

/// Law: a conversion run is a function of the archive bytes alone — two
/// runs on the same unchanged input produce byte-identical output.
pub proof fn lemma_conversion_deterministic(
    b: Seq<u8>,
    r1: Result<Seq<char>, EpubError>,
    r2: Result<Seq<char>, EpubError>,
)
    requires
        r1 == epub2txt_spec(b),
        r2 == epub2txt_spec(b),
    ensures
        r1 == r2,
{
}

/// Law: two navigation points with different `playOrder` but the same
/// resolved path collapse to a single content entry, keeping the
/// lower-order one — whichever order the document lists them in.
pub proof fn lemma_nav_dedup_keeps_lower(
    points: Seq<RawPointV>,
    root: Seq<char>,
    e1: ContentEntryV,
    e2: ContentEntryV,
)
    requires
        nav_raw_entries_spec(points, root) == seq![e1, e2] || nav_raw_entries_spec(points, root)
            == seq![e2, e1],
        e1.order < e2.order,
        e1.path == e2.path,
    ensures
        nav_contents_spec(points, root) == seq![e1],
{
    let raw = nav_raw_entries_spec(points, root);
    let sorted = seq![e1, e2];
    if raw == seq![e1, e2] {
        lemma_sort_singleton(e1);
        assert(raw.drop_last() =~= seq![e1]);
        assert(sort_entries_spec(raw) == insert_sorted_spec(seq![e1], e2));
        assert(insert_sorted_spec(seq![e1], e2) =~= sorted);
    } else {
        lemma_sort_singleton(e2);
        assert(raw.drop_last() =~= seq![e2]);
        assert(sort_entries_spec(raw) == insert_sorted_spec(seq![e2], e1));
        assert(seq![e2].drop_last() =~= Seq::<ContentEntryV>::empty());
        assert(insert_sorted_spec(seq![e2], e1) == insert_sorted_spec(
            Seq::<ContentEntryV>::empty(),
            e1,
        ).push(e2));
        assert(insert_sorted_spec(seq![e2], e1) =~= sorted);
    }
    assert(sort_entries_spec(raw) == sorted);
    assert(sorted.drop_last() =~= seq![e1]);
    assert(has_path(seq![e1], e2.path)) by {
        assert(seq![e1][0].path == e2.path);
    }
    assert(dedup_spec(sorted) == dedup_spec(seq![e1]));
    lemma_dedup_singleton(e1);
}

/// Ascending by the sort key.
pub open spec fn sorted_by_order(s: Seq<ContentEntryV>) -> bool {
    forall|i: int, j: int| 0 <= i <= j < s.len() ==> #[trigger] s[i].order <= #[trigger] s[j].order
}

/// No two entries share a path.
pub open spec fn unique_paths(s: Seq<ContentEntryV>) -> bool {
    forall|i: int, j: int| 0 <= i < j < s.len() ==> #[trigger] s[i].path != #[trigger] s[j].path
}

proof fn lemma_insert_sorted_keeps_sorted(s: Seq<ContentEntryV>, e: ContentEntryV)
    requires
        sorted_by_order(s),
    ensures
        sorted_by_order(insert_sorted_spec(s, e)),
        insert_sorted_spec(s, e).to_multiset() == s.to_multiset().insert(e),
    decreases s.len(),
{
    s.to_multiset_ensures();
    insert_sorted_spec(s, e).to_multiset_ensures();
    if s.len() == 0 {
        assert(seq![e] =~= Seq::<ContentEntryV>::empty().push(e));
        Seq::<ContentEntryV>::empty().to_multiset_ensures();
        assert(seq![e].to_multiset() == Seq::<ContentEntryV>::empty().to_multiset().insert(e));
    } else if s.last().order <= e.order {
        assert forall|i: int, j: int| 0 <= i <= j < s.push(e).len() implies #[trigger] s.push(
            e,
        )[i].order <= #[trigger] s.push(e)[j].order by {
            if j < s.len() {
            } else {
                if i < s.len() {
                    assert(s[i].order <= s.last().order);
                }
            }
        }
    } else {
        let d = s.drop_last();
        assert(sorted_by_order(d)) by {
            assert(forall|i: int, j: int|
                0 <= i <= j < d.len() ==> #[trigger] d[i].order == s[i].order && #[trigger] d[j].order
                    == s[j].order);
        }
        lemma_insert_sorted_keeps_sorted(d, e);
        let t = insert_sorted_spec(d, e);
        t.to_multiset_ensures();
        t.push(s.last()).to_multiset_ensures();
        d.to_multiset_ensures();
        assert(s =~= d.push(s.last()));
        d.push(s.last()).to_multiset_ensures();
        assert(t.push(s.last()).to_multiset() == s.to_multiset().insert(e)) by {
            assert(t.to_multiset() == d.to_multiset().insert(e));
            assert(s.to_multiset() == d.to_multiset().insert(s.last()));
        }
        assert forall|i: int, j: int| 0 <= i <= j < t.push(s.last()).len() implies #[trigger] t.push(
            s.last(),
        )[i].order <= #[trigger] t.push(s.last())[j].order by {
            if j < t.len() {
            } else {
                if i < t.len() {
                    lemma_multiset_member_order(d, e, t, i);
                }
            }
        }
    }
}

/// Every element of the inserted sequence whose key could exceed the old
/// last one is either the new entry or an element of the old sequence.
proof fn lemma_multiset_member_order(
    d: Seq<ContentEntryV>,
    e: ContentEntryV,
    t: Seq<ContentEntryV>,
    i: int,
)
    requires
        0 <= i < t.len(),
        t.to_multiset() == d.to_multiset().insert(e),
        sorted_by_order(d),
        forall|k: int| 0 <= k < d.len() ==> #[trigger] d[k].order <= d.last().order || d.len() == 0,
    ensures
        t[i].order <= e.order || (exists|m: int| 0 <= m < d.len() && #[trigger] d[m] == t[i]),
{
    t.to_multiset_ensures();
    d.to_multiset_ensures();
    assert(t.to_multiset().count(t[i]) > 0);
    if t[i] != e {
        assert(d.to_multiset().count(t[i]) > 0);
        assert(d.contains(t[i]));
        let m = choose|m: int| 0 <= m < d.len() && d[m] == t[i];
        assert(d[m] == t[i]);
    }
}

/// Law: the sorted content list is ascending by the sort key.
pub proof fn lemma_sort_entries_sorted(s: Seq<ContentEntryV>)
    ensures
        sorted_by_order(sort_entries_spec(s)),
    decreases s.len(),
{
    if s.len() > 0 {
        lemma_sort_entries_sorted(s.drop_last());
        lemma_insert_sorted_keeps_sorted(sort_entries_spec(s.drop_last()), s.last());
    }
}

/// Every entry the dedup keeps comes from its input.
proof fn lemma_dedup_membership(s: Seq<ContentEntryV>)
    ensures
        forall|k: int|
            0 <= k < dedup_spec(s).len() ==> s.contains(#[trigger] dedup_spec(s)[k]),
    decreases s.len(),
{
    if s.len() > 0 {
        let d = s.drop_last();
        lemma_dedup_membership(d);
        assert forall|k: int| 0 <= k < dedup_spec(s).len() implies s.contains(
            #[trigger] dedup_spec(s)[k],
        ) by {
            if has_path(d, s.last().path) {
                assert(d.contains(dedup_spec(s)[k]));
                let m = choose|m: int| 0 <= m < d.len() && d[m] == dedup_spec(s)[k];
                assert(s[m] == dedup_spec(s)[k]);
            } else {
                if k < dedup_spec(d).len() {
                    assert(d.contains(dedup_spec(s)[k]));
                    let m = choose|m: int| 0 <= m < d.len() && d[m] == dedup_spec(s)[k];
                    assert(s[m] == dedup_spec(s)[k]);
                } else {
                    assert(dedup_spec(s)[k] == s.last());
                    assert(s[s.len() - 1] == s.last());
                }
            }
        }
    }
}

/// Law: removing later duplicates keeps the list sorted and leaves every
/// path at most once.
pub proof fn lemma_dedup_sorted_unique(s: Seq<ContentEntryV>)
    requires
        sorted_by_order(s),
    ensures
        sorted_by_order(dedup_spec(s)),
        unique_paths(dedup_spec(s)),
    decreases s.len(),
{
    if s.len() > 0 {
        let d = s.drop_last();
        assert(sorted_by_order(d)) by {
            assert(forall|i: int, j: int|
                0 <= i <= j < d.len() ==> #[trigger] d[i].order == s[i].order && #[trigger] d[j].order
                    == s[j].order);
        }
        lemma_dedup_sorted_unique(d);
        lemma_dedup_membership(d);
        if !has_path(d, s.last().path) {
            let out = dedup_spec(d).push(s.last());
            assert forall|i: int, j: int| 0 <= i <= j < out.len() implies #[trigger] out[i].order
                <= #[trigger] out[j].order by {
                if j == out.len() - 1 && i < j {
                    assert(d.contains(dedup_spec(d)[i]));
                    let m = choose|m: int| 0 <= m < d.len() && d[m] == dedup_spec(d)[i];
                    assert(s[m].order <= s[s.len() - 1].order);
                }
            }
            assert forall|i: int, j: int| 0 <= i < j < out.len() implies #[trigger] out[i].path
                != #[trigger] out[j].path by {
                if j == out.len() - 1 {
                    assert(d.contains(dedup_spec(d)[i]));
                    let m = choose|m: int| 0 <= m < d.len() && d[m] == dedup_spec(d)[i];
                    if out[i].path == s.last().path {
                        assert(d[m].path == s.last().path);
                        assert(has_path(d, s.last().path));
                    }
                }
            }
        }
    }
}

/// Law: the navigation-map strategy's content list is sorted ascending by
/// `playOrder` and holds each resolved path at most once.
pub proof fn lemma_nav_contents_sorted_unique(points: Seq<RawPointV>, root: Seq<char>)
    ensures
        sorted_by_order(nav_contents_spec(points, root)),
        unique_paths(nav_contents_spec(points, root)),
{
    lemma_sort_entries_sorted(nav_raw_entries_spec(points, root));
    lemma_dedup_sorted_unique(sort_entries_spec(nav_raw_entries_spec(points, root)));
}

/// Law: a constructed book's content list is never empty.
pub proof fn lemma_book_contents_nonempty(data: Seq<u8>, opf: Seq<char>)
    requires
        book_of(data, opf) is Ok,
    ensures
        book_of(data, opf)->Ok_0.1.len() > 0,
{
}

proof fn lemma_sort_singleton(e: ContentEntryV)
    ensures
        sort_entries_spec(seq![e]) == seq![e],
{
    assert(seq![e].drop_last() =~= Seq::<ContentEntryV>::empty());
    assert(sort_entries_spec(Seq::<ContentEntryV>::empty()) == Seq::<ContentEntryV>::empty());
    assert(sort_entries_spec(seq![e]) == insert_sorted_spec(Seq::<ContentEntryV>::empty(), e));
    assert(insert_sorted_spec(Seq::<ContentEntryV>::empty(), e) =~= seq![e]);
}

proof fn lemma_dedup_singleton(e: ContentEntryV)
    ensures
        dedup_spec(seq![e]) == seq![e],
{
    assert(seq![e].drop_last() =~= Seq::<ContentEntryV>::empty());
    assert(dedup_spec(Seq::<ContentEntryV>::empty()) == Seq::<ContentEntryV>::empty());
    assert(!has_path(Seq::<ContentEntryV>::empty(), e.path));
    assert(dedup_spec(seq![e]) == Seq::<ContentEntryV>::empty().push(e));
    assert(Seq::<ContentEntryV>::empty().push(e) =~= seq![e]);
}

} // verus!
