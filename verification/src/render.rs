//! Text emission: the fixed-format metadata header, the per-entry text with
//! its optional label heading and separator blob, and the rendering of a
//! whole content list out of the archive.

use vstd::prelude::*;
use vstd::string::StringExecFns;
use crate::content::{ContentEntry, ContentEntryV};
use crate::dom::{doc_text, text_of};
use crate::error::EpubError;
use crate::strutil::{starts_with_str, starts_with_spec, trim_str, trim_spec};
use crate::zipio::{archive_data, read_entry, read_error_spec, zip_entry, Archive};

verus! {

/// The fixed-format header: the three metadata lines in
/// title/author/description order, each value trimmed of surrounding
/// whitespace, followed by two blank lines.
pub open spec fn header_spec(title: Seq<char>, author: Seq<char>, desc: Seq<char>) -> Seq<char> {
    "title: "@ + trim_spec(title) + "\n"@ + "author: "@ + trim_spec(author) + "\n"@
        + "description: "@ + trim_spec(desc) + "\n\n\n"@
}

/// Emits the metadata header.
pub fn render_header(title: &str, author: &str, desc: &str) -> (r: String)
    ensures
        r@ == header_spec(title@, author@, desc@),
{
    let mut out = String::new();
    out.append("title: ");
    out.append(trim_str(title));
    out.append("\n");
    out.append("author: ");
    out.append(trim_str(author));
    out.append("\n");
    out.append("description: ");
    out.append(trim_str(desc));
    out.append("\n\n\n");
    out
}

/// One entry's emitted text: the rendered text alone when it already begins
/// with the trimmed label, otherwise prefixed with the label line, and
/// followed by the separator blob that allows downstream splitting.
pub open spec fn entry_text_spec(label: Seq<char>, text: Seq<char>) -> Seq<char> {
    let l = trim_spec(label);
    if starts_with_spec(text, l) {
        text + "\n-----\n\n"@
    } else {
        l + ":\n"@ + text + "\n-----\n\n"@
    }
}

/// Emits one entry's text with its label heading and separator.
pub fn render_entry_text(label: &str, text: &str) -> (r: String)
    ensures
        r@ == entry_text_spec(label@, text@),
{
    let l = trim_str(label);
    let mut out = String::new();
    if !starts_with_str(text, l) {
        out.append(l);
        out.append(":\n");
    }
    out.append(text);
    out.append("\n-----\n\n");
    out
}

/// What rendering a content list out of an archive over the given bytes
/// returns: each entry's text in list order, or the first read failure
/// (a missing entry is fatal here, since its path was already resolved).
pub open spec fn render_all_spec(data: Seq<u8>, entries: Seq<ContentEntryV>) -> Result<
    Seq<char>,
    EpubError,
>
    decreases entries.len(),
{
    if entries.len() == 0 {
        Ok(Seq::empty())
    } else {
        match zip_entry(data, entries[0].path) {
            None => Err(read_error_spec(data, entries[0].path)),
            Some(b) => match render_all_spec(data, entries.drop_first()) {
                Err(e) => Err(e),
                Ok(rest) => Ok(entry_text_spec(entries[0].label, text_of(b)) + rest),
            },
        }
    }
}

/// Renders every entry of the content list, reading each entry's document
/// out of the archive and rendering it to text.
pub fn render_entries(a: &mut Archive, entries: &Vec<ContentEntry>) -> (r: Result<
    String,
    EpubError,
>)
    ensures
        archive_data(*final(a)) == archive_data(*old(a)),
        r is Ok <==> render_all_spec(archive_data(*old(a)), entries.deep_view()) is Ok,
        r matches Ok(s) ==> Ok::<Seq<char>, EpubError>(s@) == render_all_spec(
            archive_data(*old(a)),
            entries.deep_view(),
        ),
        r matches Err(e) ==> Err::<Seq<char>, EpubError>(e) == render_all_spec(
            archive_data(*old(a)),
            entries.deep_view(),
        ),
{
    let ghost data = archive_data(*a);
    let ghost dv = entries.deep_view();
    let n = entries.len();
    let mut out = String::new();
    let mut i: usize = 0;
    proof {
        assert(dv.skip(0) =~= dv);
    }
    while i < n
        invariant
            0 <= i <= n,
            n == entries@.len(),
            dv == entries.deep_view(),
            dv.len() == n,
            archive_data(*a) == data,
            data == archive_data(*old(a)),
            render_all_spec(data, dv) == (match render_all_spec(data, dv.skip(i as int)) {
                Ok(rest) => Ok::<Seq<char>, EpubError>(out@ + rest),
                Err(e) => Err(e),
            }),
        decreases n - i,
    {
        let ghost s = dv.skip(i as int);
        proof {
            assert(s[0] == dv[i as int]);
            assert(s.drop_first() =~= dv.skip(i + 1));
        }
        let bytes = match read_entry(a, entries[i].path.as_str()) {
            Ok(b) => b,
            Err(e) => {
                proof {
                    assert(render_all_spec(data, s) == Err::<Seq<char>, EpubError>(
                        read_error_spec(data, s[0].path),
                    ));
                }
                return Err(e);
            },
        };
        let text = doc_text(&bytes);
        let piece = render_entry_text(entries[i].label.as_str(), text.as_str());
        let ghost pre = out@;
        out.append(piece.as_str());
        i = i + 1;
        proof {
            if render_all_spec(data, dv.skip(i as int)) is Ok {
                let rest = render_all_spec(data, dv.skip(i as int))->Ok_0;
                assert(pre + (piece@ + rest) =~= out@ + rest);
            }
        }
    }
    proof {
        assert(dv.skip(n as int) =~= Seq::<ContentEntryV>::empty());
        assert(out@ + Seq::<char>::empty() =~= out@);
    }
    Ok(out)
}

} // verus!
