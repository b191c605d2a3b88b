//! The reference resolver: joins raw href/src attribute values
//! (percent-encoded, possibly relative) against the package-root directory
//! into concrete archive-entry paths.

use vstd::prelude::*;
use vstd::string::{StrSliceExecFns, StringExecFns};
use vstd::utf8::{decode_utf8, valid_utf8};

verus! {

/// Joins a package-root directory and a relative entry path with a single
/// separator; an empty root leaves the relative path unchanged.
pub open spec fn join_spec(root: Seq<char>, rel: Seq<char>) -> Seq<char> {
    if root.len() == 0 {
        rel
    } else {
        root + seq!['/'] + rel
    }
}

/// Hexadecimal digit bytes, as percent escapes use them.
pub open spec fn is_hex(b: u8) -> bool {
    (0x30 <= b && b <= 0x39) || (0x41 <= b && b <= 0x46) || (0x61 <= b && b <= 0x66)
}

/// The value of a hexadecimal digit byte.
pub open spec fn hex_val(b: u8) -> nat {
    if 0x30 <= b && b <= 0x39 {
        (b - 0x30) as nat
    } else if 0x41 <= b && b <= 0x46 {
        (b - 0x41 + 10) as nat
    } else {
        (b - 0x61 + 10) as nat
    }
}

/// Percent-decoding over bytes: each `%` followed by two hexadecimal digits
/// becomes the byte they spell; everything else passes through unchanged.
pub open spec fn pct_decode_spec(s: Seq<u8>) -> Seq<u8>
    decreases s.len(),
{
    if s.len() == 0 {
        Seq::empty()
    } else if s[0] == 0x25 && s.len() >= 3 && is_hex(s[1]) && is_hex(s[2]) {
        seq![(hex_val(s[1]) * 16 + hex_val(s[2])) as u8] + pct_decode_spec(s.skip(3))
    } else {
        seq![s[0]] + pct_decode_spec(s.skip(1))
    }
}

/// The value of a hexadecimal digit byte, or `None` where it is no digit.
fn hex_digit(b: u8) -> (r: Option<u8>)
    ensures
        r is Some <==> is_hex(b),
        r is Some ==> r->0 == hex_val(b),
{
    if 0x30 <= b && b <= 0x39 {
        Some(b - 0x30)
    } else if 0x41 <= b && b <= 0x46 {
        Some(b - 0x41 + 10)
    } else if 0x61 <= b && b <= 0x66 {
        Some(b - 0x61 + 10)
    } else {
        None
    }
}

/// Percent-decodes a byte sequence.
pub fn pct_decode(v: &Vec<u8>) -> (r: Vec<u8>)
    ensures
        r@ == pct_decode_spec(v@),
{
    let n = v.len();
    let mut out: Vec<u8> = Vec::new();
    let mut i: usize = 0;
    proof {
        assert(v@.skip(0) =~= v@);
        assert(out@ + pct_decode_spec(v@) =~= pct_decode_spec(v@));
    }
    while i < n
        invariant
            0 <= i <= n,
            n == v@.len(),
            pct_decode_spec(v@) == out@ + pct_decode_spec(v@.skip(i as int)),
        decreases n - i,
    {
        let ghost s = v@.skip(i as int);
        proof {
            assert(s[0] == v@[i as int]);
        }
        let b = v[i];
        let mut stepped = false;
        if b == 0x25 && n - i >= 3 {
            proof {
                assert(s[1] == v@[i + 1]);
                assert(s[2] == v@[i + 2]);
            }
            let h1 = hex_digit(v[i + 1]);
            let h2 = hex_digit(v[i + 2]);
            if let (Some(x1), Some(x2)) = (h1, h2) {
                out.push(x1 * 16 + x2);
                i = i + 3;
                stepped = true;
                proof {
                    assert(s.skip(3) =~= v@.skip(i as int));
                    assert(out@ + pct_decode_spec(v@.skip(i as int)) =~= out@.drop_last() + pct_decode_spec(s));
                }
            }
        }
        if !stepped {
            out.push(b);
            i = i + 1;
            proof {
                assert(s.skip(1) =~= v@.skip(i as int));
                assert(out@ + pct_decode_spec(v@.skip(i as int)) =~= out@.drop_last() + pct_decode_spec(s));
            }
        }
    }
    proof {
        assert(v@.skip(n as int) =~= Seq::<u8>::empty());
        assert(out@ + pct_decode_spec(v@.skip(n as int)) =~= out@);
    }
    out
}

/// Relies on `String::from_utf8`: it returns `Ok` exactly on well-formed
/// UTF-8 input, and then the string those bytes encode (vstd's `valid_utf8`
/// and `decode_utf8` state that well-formedness and decoding).
#[verifier::external_body]
fn bytes_to_string(v: Vec<u8>) -> (r: Option<String>)
    ensures
        r is Some <==> valid_utf8(v@),
        r is Some ==> r->0@ == decode_utf8(v@),
{
    String::from_utf8(v).ok()
}

/// The sequence with its leading path separators removed.
pub open spec fn strip_slashes_spec(s: Seq<char>) -> Seq<char>
    decreases s.len(),
{
    if s.len() > 0 && s[0] == '/' {
        strip_slashes_spec(s.drop_first())
    } else {
        s
    }
}

proof fn lemma_strip_slashes_skip(s: Seq<char>, a: int)
    requires
        0 <= a <= s.len(),
        forall|k: int| 0 <= k < a ==> s[k] == '/',
        a == s.len() || s[a] != '/',
    ensures
        strip_slashes_spec(s) == s.skip(a),
    decreases a,
{
    if a == 0 {
        assert(s.skip(0) =~= s);
    } else {
        lemma_strip_slashes_skip(s.drop_first(), a - 1);
        assert(s.drop_first().skip(a - 1) =~= s.skip(a));
    }
}

/// Removes leading path separators from a decoded reference.
fn strip_slashes<'a>(s: &'a str) -> (r: &'a str)
    ensures
        r@ == strip_slashes_spec(s@),
{
    let n = s.unicode_len();
    let mut a: usize = 0;
    while a < n && s.get_char(a) == '/'
        invariant
            0 <= a <= n,
            n == s@.len(),
            forall|k: int| 0 <= k < a ==> s@[k] == '/',
        decreases n - a,
    {
        a = a + 1;
    }
    let r = s.substring_char(a, n);
    proof {
        lemma_strip_slashes_skip(s@, a as int);
        assert(s@.subrange(a as int, n as int) =~= s@.skip(a as int));
    }
    r
}

/// What resolving a raw reference against the package root returns:
/// percent-decode, require the decoded bytes to be well-formed UTF-8, strip
/// leading separators, then join onto the root directory.
pub open spec fn resolve_ref_spec(root: Seq<char>, raw: Seq<char>) -> Option<Seq<char>> {
    let d = pct_decode_spec(vstd::utf8::encode_utf8(raw));
    if valid_utf8(d) {
        Some(join_spec(root, strip_slashes_spec(decode_utf8(d))))
    } else {
        None
    }
}

/// Resolves a raw href/src value against the package-root directory into an
/// archive-entry path; `None` marks a reference that does not decode, which
/// the caller skips without aborting the whole resolution pass.
pub fn resolve_ref(root: &str, raw: &str) -> (r: Option<String>)
    ensures
        r.deep_view() == resolve_ref_spec(root@, raw@),
{
    let bytes = raw.as_bytes_vec();
    let dec = pct_decode(&bytes);
    match bytes_to_string(dec) {
        None => None,
        Some(s) => {
            let stripped = strip_slashes(s.as_str());
            if root.unicode_len() == 0 {
                Some(stripped.to_owned())
            } else {
                let mut out = root.to_owned();
                out.append("/");
                out.append(stripped);
                proof {
                    reveal_strlit("/");
                    assert(("/")@ =~= seq!['/']);
                }
                Some(out)
            }
        },
    }
}

} // verus!
