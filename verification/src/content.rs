//! The content list: the ordered sequence of renderable archive entries that
//! the package resolver produces, and the spine strategy that builds it from
//! the manifest and the itemref list.

use vstd::prelude::*;
use crate::refres::{resolve_ref, resolve_ref_spec};
use crate::strutil::str_eq;

verus! {

/// One unit of renderable text: a sort key, a display heading (may be
/// empty), and a resolved archive-entry path.
pub struct ContentEntry {
    /// Used only for sort ordering; positional for the spine strategy,
    /// the parsed `playOrder` for the navigation-map strategy.
    pub order: usize,
    /// Display heading; empty when the strategy supplies none.
    pub label: String,
    /// Resolved archive-entry path.
    pub path: String,
}

/// The mathematical value of a [`ContentEntry`].
pub struct ContentEntryV {
    pub order: nat,
    pub label: Seq<char>,
    pub path: Seq<char>,
}

impl View for ContentEntry {
    type V = ContentEntryV;

    open spec fn view(&self) -> ContentEntryV {
        ContentEntryV { order: self.order as nat, label: self.label@, path: self.path@ }
    }
}

impl DeepView for ContentEntry {
    type V = ContentEntryV;

    open spec fn deep_view(&self) -> ContentEntryV {
        self@
    }
}

impl ContentEntry {
    /// A copy with the same value.
    pub fn duplicate(&self) -> (r: ContentEntry)
        ensures
            r@ == self@,
    {
        ContentEntry { order: self.order, label: self.label.clone(), path: self.path.clone() }
    }
}

/// A manifest item as the package document declares it: an optional id and
/// an optional raw href.
pub type RawItemV = (Option<Seq<char>>, Option<Seq<char>>);

/// What looking an id up in the manifest returns: the href of the latest
/// complete item (id and href both present) declared under that id.
pub open spec fn manifest_lookup_spec(items: Seq<RawItemV>, id: Seq<char>) -> Option<Seq<char>>
    decreases items.len(),
{
    if items.len() == 0 {
        None
    } else {
        let last = items.last();
        if last.0 == Some(id) && last.1 is Some {
            last.1
        } else {
            manifest_lookup_spec(items.drop_last(), id)
        }
    }
}

/// Looks an itemref's id up among the manifest items. An item missing either
/// attribute never matches; of duplicate ids the latest declaration wins.
pub fn manifest_lookup(items: &Vec<(Option<String>, Option<String>)>, id: &str) -> (r: Option<
    String,
>)
    ensures
        r.deep_view() == manifest_lookup_spec(items.deep_view(), id@),
{
    let ghost dv = items.deep_view();
    let mut j: usize = items.len();
    proof {
        assert(dv.take(j as int) =~= dv);
    }
    while j > 0
        invariant
            0 <= j <= items@.len(),
            dv == items.deep_view(),
            dv.len() == items@.len(),
            manifest_lookup_spec(dv, id@) == manifest_lookup_spec(dv.take(j as int), id@),
        decreases j,
    {
        proof {
            assert(dv.take(j as int).last() == dv[j - 1]);
            assert(dv.take(j as int).drop_last() =~= dv.take(j - 1));
        }
        let hit = match &items[j - 1].0 {
            Some(s) => str_eq(s.as_str(), id),
            None => false,
        };
        if hit {
            if let Some(href) = &items[j - 1].1 {
                return Some(href.clone());
            }
        }
        j = j - 1;
    }
    proof {
        assert(dv.take(0) =~= Seq::<RawItemV>::empty());
    }
    None
}

/// What the spine strategy yields: for each itemref in document order, its
/// manifest href resolved against the package root, skipping an itemref with
/// no idref, an unresolvable idref, or a reference that does not decode; the
/// position among the surviving entries (starting at `k`) is the sort key.
pub open spec fn spine_entries_spec(
    items: Seq<RawItemV>,
    refs: Seq<Option<Seq<char>>>,
    root: Seq<char>,
    k: nat,
) -> Seq<ContentEntryV>
    decreases refs.len(),
{
    if refs.len() == 0 {
        Seq::empty()
    } else {
        let rest = refs.drop_first();
        let resolved = match refs[0] {
            None => None,
            Some(id) => match manifest_lookup_spec(items, id) {
                None => None,
                Some(href) => resolve_ref_spec(root, href),
            },
        };
        match resolved {
            None => spine_entries_spec(items, rest, root, k),
            Some(p) => seq![ContentEntryV { order: k, label: Seq::empty(), path: p }]
                + spine_entries_spec(items, rest, root, (k + 1) as nat),
        }
    }
}

/// Builds the content list from the manifest items and the spine itemrefs,
/// preserving spine document order.
pub fn resolve_spine(
    items: &Vec<(Option<String>, Option<String>)>,
    refs: &Vec<Option<String>>,
    root: &str,
) -> (r: Vec<ContentEntry>)
    ensures
        r.deep_view() == spine_entries_spec(items.deep_view(), refs.deep_view(), root@, 0),
{
    let ghost iv = items.deep_view();
    let ghost rv = refs.deep_view();
    let n = refs.len();
    let mut out: Vec<ContentEntry> = Vec::new();
    let mut i: usize = 0;
    proof {
        assert(rv.skip(0) =~= rv);
        assert(out.deep_view() + spine_entries_spec(iv, rv, root@, 0) =~= spine_entries_spec(
            iv,
            rv,
            root@,
            0,
        ));
    }
    while i < n
        invariant
            0 <= i <= n,
            n == refs@.len(),
            iv == items.deep_view(),
            rv == refs.deep_view(),
            rv.len() == n,
            spine_entries_spec(iv, rv, root@, 0) == out.deep_view() + spine_entries_spec(
                iv,
                rv.skip(i as int),
                root@,
                out.deep_view().len(),
            ),
        decreases n - i,
    {
        let ghost s = rv.skip(i as int);
        proof {
            assert(s[0] == rv[i as int]);
            assert(s.drop_first() =~= rv.skip(i + 1));
        }
        let resolved: Option<String> = match &refs[i] {
            None => None,
            Some(id) => match manifest_lookup(items, id.as_str()) {
                None => None,
                Some(href) => resolve_ref(root, href.as_str()),
            },
        };
        let ghost pre = out.deep_view();
        match resolved {
            None => (),
            Some(p) => {
                let entry = ContentEntry { order: out.len(), label: String::new(), path: p };
                out.push(entry);
                proof {
                    assert(out.deep_view() =~= pre.push(entry@));
                    assert(pre.push(entry@) =~= pre + seq![
                        ContentEntryV { order: pre.len(), label: Seq::empty(), path: entry@.path },
                    ]);
                }
            },
        }
        i = i + 1;
        proof {
            assert(spine_entries_spec(iv, rv, root@, 0) == out.deep_view() + spine_entries_spec(
                iv,
                rv.skip(i as int),
                root@,
                out.deep_view().len(),
            ));
        }
    }
    proof {
        assert(rv.skip(n as int) =~= Seq::<Option<Seq<char>>>::empty());
        assert(out.deep_view() + spine_entries_spec(iv, rv.skip(n as int), root@, out.deep_view().len())
            =~= out.deep_view());
    }
    out
}

} // verus!
