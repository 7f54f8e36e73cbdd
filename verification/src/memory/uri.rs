//! Memory URIs of the form `domain://path`.
use vstd::prelude::*;

use crate::error::{internal, is_internal, AppError};
use crate::text::{chars_of, find_from, occurs_at, rfind_char, rfind_char_exec, string_of, trim, trim_bounds, find_seq, chars_eq, lemma_rfind_char};

verus! {

/// Default domain when none is specified.
pub const DEFAULT_DOMAIN: &'static str = "core";

/// The separator between domain and path.
pub open spec fn sep() -> Seq<char> {
    seq![':', '/', '/']
}

/// Domains that are allowed for memory creation.
pub open spec fn valid_domains() -> Seq<Seq<char>> {
    seq!["core"@, "writer"@, "game"@, "notes"@, "system"@]
}

/// A parsed URI with domain and path components.
#[derive(Debug, Clone, PartialEq, Eq)]
pub struct ParsedUri {
    pub domain: String,
    pub path: String,
}

impl ParsedUri {
    /// Format back to a `domain://path` string.
    pub fn to_uri(&self) -> (r: String)
        ensures
            r@ == self.domain@ + sep() + self.path@,
    {
        let mut r = self.domain.clone();
        r.append("://");
        r.append(self.path.as_str());
        proof {
            reveal_strlit("://");
        }
        r
    }
}

/// `s` ends with `p`.
pub open spec fn ends_with(s: Seq<char>, p: Seq<char>) -> bool {
    s.len() >= p.len() && occurs_at(s, p, s.len() - p.len())
}

/// The `(domain, path)` that `parse_uri` gives for `uri`, or `None` where it
/// reports an empty domain.
///
/// The URI is trimmed first. The first `://` splits the domain, the text
/// before it, from the path, the text after it (an empty domain is refused);
/// with no `://` the whole text is a path in the default domain.
pub open spec fn spec_parse_uri(uri: Seq<char>) -> Option<(Seq<char>, Seq<char>)> {
    let t = trim(uri);
    match find_from(t, sep(), 0) {
        Some(i) => if i == 0 {
            None
        } else {
            Some((t.take(i), t.skip(i + 3)))
        },
        None => Some((DEFAULT_DOMAIN@, t)),
    }
}

/// The text of the error for a URI with an empty domain.
pub open spec fn empty_domain_msg() -> Seq<char> {
    "Empty domain in URI"@
}

/// Parse a `domain://path` URI string into its components.
///
/// Returns `AppError::Internal` if the URI has an empty domain before its
/// first `://`.
pub fn parse_uri(uri: &str) -> (r: Result<ParsedUri, AppError>)
    ensures
        match spec_parse_uri(uri@) {
            Some((d, p)) => r matches Ok(pu) && pu.domain@ == d && pu.path@ == p,
            None => r matches Err(e) && is_internal(e, empty_domain_msg()),
        },
{
    let v = chars_of(uri);
    let (lo, hi) = trim_bounds(&v);
    let tv = sub_chars(&v, lo, hi);
    let ghost t = tv@;
    assert(t == trim(uri@));
    let sepv = chars_of("://");
    proof {
        reveal_strlit("://");
        assert(sepv@ =~= sep());
    }
    let n = tv.len();
    match find_seq(&tv, &sepv) {
        Some(i) => {
            if i == 0 {
                return Err(internal("Empty domain in URI"));
            }
            proof {
                crate::text::lemma_find_from(t, sep(), 0);
            }
            let domain = string_of(&tv, 0, i);
            let path = string_of(&tv, i + 3, n);
            assert(domain@ =~= t.take(i as int));
            assert(path@ =~= t.skip(i + 3));
            Ok(ParsedUri { domain, path })
        },
        None => {
            let domain = String::from_str(DEFAULT_DOMAIN);
            let path = string_of(&tv, 0, n);
            assert(path@ =~= t);
            Ok(ParsedUri { domain, path })
        },
    }
}

/// A new vector holding `v[lo..hi]`.
pub fn sub_chars(v: &Vec<char>, lo: usize, hi: usize) -> (r: Vec<char>)
    requires
        lo <= hi <= v@.len(),
    ensures
        r@ == v@.subrange(lo as int, hi as int),
{
    let mut r: Vec<char> = Vec::new();
    let mut i = lo;
    while i < hi
        invariant
            lo <= i <= hi,
            hi <= v@.len(),
            r@ == v@.subrange(lo as int, i as int),
        decreases hi - i,
    {
        r.push(v[i]);
        i = i + 1;
        assert(r@ =~= v@.subrange(lo as int, i as int));
    }
    r
}

/// The `(parent, leaf)` split that `split_parent_path` gives for `path`:
/// around the last `/`, or `("", path)` when there is none.
pub open spec fn spec_split_parent_path(path: Seq<char>) -> (Seq<char>, Seq<char>) {
    match rfind_char(path, '/', path.len() as int) {
        Some(i) => (path.take(i), path.skip(i + 1)),
        None => (Seq::<char>::empty(), path),
    }
}

/// Extract the parent path and leaf segment from a path string.
///
/// Returns `("parent/path", "leaf")` or `("", "leaf")` for top-level paths.
pub fn split_parent_path(path: &str) -> (r: (&str, &str))
    ensures
        (r.0@, r.1@) == spec_split_parent_path(path@),
{
    let v = chars_of(path);
    let n = v.len();
    match rfind_char_exec(&v, '/') {
        Some(i) => {
            proof {
                lemma_rfind_char(path@, '/', n as int);
            }
            let parent = path.substring_char(0, i);
            let leaf = path.substring_char(i + 1, n);
            assert(parent@ =~= path@.take(i as int));
            assert(leaf@ =~= path@.skip(i + 1));
            (parent, leaf)
        },
        None => {
            proof {
                reveal_strlit("");
            }
            assert(""@ =~= Seq::<char>::empty());
            ("", path)
        },
    }
}

/// Check whether a domain is valid for memory creation.
pub fn is_valid_domain(domain: &str) -> (r: bool)
    ensures
        r == valid_domains().contains(domain@),
{
    let d = chars_of(domain);
    let ghost vd = valid_domains();
    assert(vd[0] == "core"@ && vd[1] == "writer"@ && vd[2] == "game"@ && vd[3] == "notes"@ && vd[4]
        == "system"@);
    let r = chars_eq(&d, &chars_of("core")) || chars_eq(&d, &chars_of("writer")) || chars_eq(
        &d,
        &chars_of("game"),
    ) || chars_eq(&d, &chars_of("notes")) || chars_eq(&d, &chars_of("system"));
    proof {
        if r {
            assert(vd.contains(domain@));
        } else {
            assert forall|k: int| 0 <= k < vd.len() implies vd[k] != domain@ by {}
        }
    }
    r
}

} // verus!

verus! {

/// `find_from` gives the first occurrence from `i` on.
pub proof fn lemma_find_from_first(s: Seq<char>, p: Seq<char>, i: int, k: int)
    requires
        0 <= i <= k,
        occurs_at(s, p, k),
        forall|j: int| i <= j < k ==> !occurs_at(s, p, j),
    ensures
        find_from(s, p, i) == Some(k),
    decreases k - i,
{
    if i < k {
        lemma_find_from_first(s, p, i + 1, k);
    }
}

/// Formatting a parsed URI gives back the trimmed URI, with the default
/// domain made explicit when the URI named none.
pub proof fn lemma_parse_then_format(uri: Seq<char>)
    ensures
        spec_parse_uri(uri) matches Some((d, p)) ==> d + sep() + p == if find_from(
            trim(uri),
            sep(),
            0,
        ) is Some {
            trim(uri)
        } else {
            DEFAULT_DOMAIN@ + sep() + trim(uri)
        },
{
    let t = trim(uri);
    crate::text::lemma_find_from(t, sep(), 0);
    match find_from(t, sep(), 0) {
        Some(i) => {
            assert(t.take(i) + sep() + t.skip(i + 3) =~= t);
        },
        None => {},
    }
}

/// A parsed domain is never empty and never holds `://`: the domain is the
/// text before the first separator, or the default domain.
pub proof fn lemma_parsed_domain(uri: Seq<char>)
    ensures
        spec_parse_uri(uri) matches Some((d, p)) ==> d.len() > 0 && forall|j: int|
            !occurs_at(d, sep(), j),
{
    let t = trim(uri);
    crate::text::lemma_find_from(t, sep(), 0);
    match find_from(t, sep(), 0) {
        Some(i) => {
            if i > 0 {
                let d = t.take(i);
                assert forall|j: int| !occurs_at(d, sep(), j) by {
                    if occurs_at(d, sep(), j) {
                        assert(d.subrange(j, j + 3) =~= t.subrange(j, j + 3));
                        assert(occurs_at(t, sep(), j));
                    }
                }
            }
        },
        None => {
            reveal_strlit("core");
            let d = DEFAULT_DOMAIN@;
            assert forall|j: int| !occurs_at(d, sep(), j) by {
                if occurs_at(d, sep(), j) {
                    assert(d.subrange(j, j + 3)[0] == ':');
                }
            }
        },
    }
}

/// Parsing a formatted URI gives back its domain and path, for a nonempty
/// domain without `://` that does not start with whitespace, and a path that
/// does not end with whitespace.
pub proof fn lemma_format_then_parse(d: Seq<char>, p: Seq<char>)
    requires
        d.len() > 0,
        !crate::text::is_ws(d[0]),
        forall|j: int| !occurs_at(d, sep(), j),
        p.len() > 0 ==> !crate::text::is_ws(p.last()),
    ensures
        spec_parse_uri(d + sep() + p) == Some((d, p)),
{
    let s = d + sep() + p;
    let n: int = d.len() as int;
    assert(s[0] == d[0]);
    assert(trim_start_is_identity(s));
    let last = s.last();
    if p.len() > 0 {
        assert(last == p.last());
    } else {
        assert(last == '/');
    }
    assert(trim_end_is_identity(s));
    assert(trim(s) == s);
    // no occurrence before the separator
    assert forall|j: int| 0 <= j < n implies !occurs_at(s, sep(), j) by {
        if j + 3 <= n {
            assert(s.subrange(j, j + 3) =~= d.subrange(j, j + 3));
            if occurs_at(s, sep(), j) {
                assert(occurs_at(d, sep(), j));
            }
        } else if j == n - 1 {
            assert(s[j + 1] == ':');
            if occurs_at(s, sep(), j) {
                assert(s.subrange(j, j + 3)[1] == sep()[1]);
            }
        } else {
            assert(j == n - 2);
            assert(s[j + 2] == ':');
            if occurs_at(s, sep(), j) {
                assert(s.subrange(j, j + 3)[2] == sep()[2]);
            }
        }
    }
    assert(s.subrange(n as int, n + 3) =~= sep());
    lemma_find_from_first(s, sep(), 0, n as int);
    assert(s.take(n as int) =~= d);
    assert(s.skip(n + 3) =~= p);
}

/// Helper: `trim_start(s) == s`.
pub open spec fn trim_start_is_identity(s: Seq<char>) -> bool {
    s.len() > 0 && !crate::text::is_ws(s[0]) ==> crate::text::trim_start(s) == s
}

/// Helper: `trim_end(s) == s`.
pub open spec fn trim_end_is_identity(s: Seq<char>) -> bool {
    s.len() > 0 && !crate::text::is_ws(s.last()) ==> crate::text::trim_end(s) == s
}

/// Splitting a path and joining the parts with `/` gives the path back; the
/// leaf holds no `/`. A path without `/` is all leaf.
pub proof fn lemma_split_parent_path(path: Seq<char>)
    ensures
        ({
            let (parent, leaf) = spec_split_parent_path(path);
            &&& !leaf.contains('/')
            &&& path.contains('/') ==> parent + seq!['/'] + leaf == path
            &&& !path.contains('/') ==> parent.len() == 0 && leaf == path
        }),
{
    lemma_rfind_char(path, '/', path.len() as int);
    match rfind_char(path, '/', path.len() as int) {
        Some(i) => {
            assert(path.take(i) + seq!['/'] + path.skip(i + 1) =~= path);
            let leaf = path.skip(i + 1);
            assert forall|k: int| 0 <= k < leaf.len() implies leaf[k] != '/' by {
                assert(leaf[k] == path[i + 1 + k]);
            }
            assert(path.contains('/'));
        },
        None => {
            assert(!path.contains('/'));
        },
    }
}

} // verus!
