//! Template rendering.
//!
//! Every page — regular, listing or error — is produced by substituting a
//! `title` and a `content` variable into one mustache template. The
//! substitution is done by the `mustache` crate; this module names its
//! result so that contracts can state exactly which bytes a response holds.
//!
//! A mustache template may also pull in partial templates (`{{> name}}`),
//! which the crate loads from disk while compiling; for such a template the
//! output is not a function of the source text alone. And a tag naming the
//! implicit iterator (`{{.}}`, `{{&.}}`, `{{{.}}}`, spaces allowed) makes
//! the renderer reach the root data map and panic. The library therefore
//! only accepts template sources that contain no partial tag, no
//! delimiter-change tag (`{{= ... =}}`) and no implicit-iterator tag, which
//! `template_supported` states and `check_template_supported` decides.

use vstd::prelude::*;
use vstd::string::StrSliceExecFns;

verus! {

/// `pat` occurs in `s` starting at position `i`.
pub open spec fn occurs_at(s: Seq<char>, pat: Seq<char>, i: int) -> bool {
    0 <= i && i + pat.len() <= s.len() && s.subrange(i, i + pat.len()) == pat
}

/// `pat` occurs somewhere in `s`.
pub open spec fn contains_pat(s: Seq<char>, pat: Seq<char>) -> bool {
    exists|i: int| occurs_at(s, pat, i)
}

/// A character that the template parser's trimming discards: Rust's
/// `char::is_whitespace`, the Unicode white-space set.
pub open spec fn space_char(c: char) -> bool {
    c == '\u{0009}' || c == '\u{000A}' || c == '\u{000B}' || c == '\u{000C}' || c == '\u{000D}'
        || c == ' ' || c == '\u{0085}' || c == '\u{00A0}' || c == '\u{1680}' || ('\u{2000}' <= c
        && c <= '\u{200A}') || c == '\u{2028}' || c == '\u{2029}' || c == '\u{202F}' || c
        == '\u{205F}' || c == '\u{3000}'
}

/// Every character of `s` in `[i, j)` is whitespace.
pub open spec fn all_space(s: Seq<char>, i: int, j: int) -> bool {
    forall|m: int| i <= m < j ==> space_char(s[m])
}

/// At `j` and `k` after `p`: whitespace, a lone `.`, whitespace, then a
/// closing brace — the shape of a tag body naming the implicit iterator.
pub open spec fn implicit_ref_witness(s: Seq<char>, p: int, j: int, k: int) -> bool {
    p <= j < k < s.len() && s[j] == '.' && s[k] == '}' && all_space(s, p, j) && all_space(
        s,
        j + 1,
        k,
    )
}

/// From position `p` on, the text reads as an implicit-iterator tag body.
pub open spec fn implicit_ref_at(s: Seq<char>, p: int) -> bool {
    exists|j: int, k: int| implicit_ref_witness(s, p, j, k)
}

/// An implicit-iterator tag starts at `i`: `{{`, an optional `&` or `{`
/// unescape sigil, then `.` alone up to a closing brace.
pub open spec fn implicit_tag_at(s: Seq<char>, i: int) -> bool {
    &&& 0 <= i
    &&& i + 2 <= s.len()
    &&& s[i] == '{'
    &&& s[i + 1] == '{'
    &&& (implicit_ref_at(s, i + 2) || (i + 2 < s.len() && (s[i + 2] == '&' || s[i + 2] == '{')
        && implicit_ref_at(s, i + 3)))
}

/// Somewhere in `s` an implicit-iterator tag begins.
pub open spec fn has_implicit_tag(s: Seq<char>) -> bool {
    exists|i: int| implicit_tag_at(s, i)
}

/// A template source the library accepts: no partial tag, no
/// delimiter-change tag, and no tag naming the implicit iterator, so that
/// rendering reads nothing but the source and returns on every input.
pub open spec fn template_supported(t: Seq<char>) -> bool {
    !contains_pat(t, seq!['{', '{', '>']) && !contains_pat(t, seq!['{', '{', '='])
        && !has_implicit_tag(t)
}

/// Looks for the three-character pattern `{{` followed by `marker`.
fn contains_brace_marker(s: &str, marker: char) -> (r: bool)
    ensures
        r == contains_pat(s@, seq!['{', '{', marker]),
{
    let n = s.unicode_len();
    if n < 3 {
        assert(forall|i: int| !occurs_at(s@, seq!['{', '{', marker], i));
        return false;
    }
    let mut i: usize = 0;
    while i <= n - 3
        invariant
            n == s@.len(),
            3 <= n,
            i <= n - 2,
            forall|j: int| 0 <= j < i ==> !occurs_at(s@, seq!['{', '{', marker], j),
        decreases n - i,
    {
        let c0 = s.get_char(i);
        let c1 = s.get_char(i + 1);
        let c2 = s.get_char(i + 2);
        if c0 == '{' && c1 == '{' && c2 == marker {
            assert(s@.subrange(i as int, i as int + 3) =~= seq!['{', '{', marker]);
            assert(occurs_at(s@, seq!['{', '{', marker], i as int));
            return true;
        }
        assert(!occurs_at(s@, seq!['{', '{', marker], i as int)) by {
            if occurs_at(s@, seq!['{', '{', marker], i as int) {
                assert(s@.subrange(i as int, i as int + 3)[0] == '{');
                assert(s@.subrange(i as int, i as int + 3)[1] == '{');
                assert(s@.subrange(i as int, i as int + 3)[2] == marker);
            }
        }
        i += 1;
    }
    assert(forall|j: int| !occurs_at(s@, seq!['{', '{', marker], j) || j < i) by {
        assert(forall|j: int| occurs_at(s@, seq!['{', '{', marker], j) ==> j + 3 <= n);
    }
    false
}

/// Decides `space_char`.
fn is_space_char(c: char) -> (r: bool)
    ensures
        r == space_char(c),
{
    c == '\u{0009}' || c == '\u{000A}' || c == '\u{000B}' || c == '\u{000C}' || c == '\u{000D}'
        || c == ' ' || c == '\u{0085}' || c == '\u{00A0}' || c == '\u{1680}' || ('\u{2000}' <= c
        && c <= '\u{200A}') || c == '\u{2028}' || c == '\u{2029}' || c == '\u{202F}' || c
        == '\u{205F}' || c == '\u{3000}'
}

/// Decides `implicit_ref_at` by scanning to the first non-whitespace
/// character, and again after the `.`.
fn implicit_ref_check(s: &str, p: usize) -> (r: bool)
    requires
        p <= s@.len(),
    ensures
        r == implicit_ref_at(s@, p as int),
{
    let n = s.unicode_len();
    let mut j = p;
    while j < n && is_space_char(s.get_char(j))
        invariant
            n == s@.len(),
            p <= j <= n,
            all_space(s@, p as int, j as int),
        decreases n - j,
    {
        j += 1;
    }
    assert(!space_char('.'));
    if j == n {
        assert(!implicit_ref_at(s@, p as int)) by {
            if implicit_ref_at(s@, p as int) {
                let (j2, k2) = choose|j2: int, k2: int| implicit_ref_witness(s@, p as int, j2, k2);
                assert(space_char(s@[j2]));
            }
        }
        return false;
    }
    if s.get_char(j) != '.' {
        assert(!implicit_ref_at(s@, p as int)) by {
            if implicit_ref_at(s@, p as int) {
                let (j2, k2) = choose|j2: int, k2: int| implicit_ref_witness(s@, p as int, j2, k2);
                if j2 < j {
                    assert(space_char(s@[j2]));
                } else if j2 > j {
                    assert(space_char(s@[j as int]));
                }
            }
        }
        return false;
    }
    let mut k = j + 1;
    while k < n && is_space_char(s.get_char(k))
        invariant
            n == s@.len(),
            j + 1 <= k <= n,
            j < n,
            all_space(s@, j as int + 1, k as int),
        decreases n - k,
    {
        k += 1;
    }
    assert(!space_char('}'));
    if k == n {
        assert(!implicit_ref_at(s@, p as int)) by {
            if implicit_ref_at(s@, p as int) {
                let (j2, k2) = choose|j2: int, k2: int| implicit_ref_witness(s@, p as int, j2, k2);
                if j2 < j {
                    assert(space_char(s@[j2]));
                } else if j2 > j {
                    assert(space_char(s@[j as int]));
                }
                assert(j2 == j);
                assert(space_char(s@[k2]));
            }
        }
        return false;
    }
    if s.get_char(k) == '}' {
        assert(implicit_ref_witness(s@, p as int, j as int, k as int));
        true
    } else {
        assert(!implicit_ref_at(s@, p as int)) by {
            if implicit_ref_at(s@, p as int) {
                let (j2, k2) = choose|j2: int, k2: int| implicit_ref_witness(s@, p as int, j2, k2);
                if j2 < j {
                    assert(space_char(s@[j2]));
                } else if j2 > j {
                    assert(space_char(s@[j as int]));
                }
                assert(j2 == j);
                if k2 < k {
                    assert(space_char(s@[k2]));
                } else if k2 > k {
                    assert(space_char(s@[k as int]));
                }
                assert(k2 == k);
            }
        }
        false
    }
}

/// Looks for an implicit-iterator tag anywhere in the template.
fn contains_implicit_tag(s: &str) -> (r: bool)
    ensures
        r == has_implicit_tag(s@),
{
    let n = s.unicode_len();
    if n < 2 {
        assert(forall|i: int| !implicit_tag_at(s@, i));
        return false;
    }
    let mut i: usize = 0;
    while i <= n - 2
        invariant
            n == s@.len(),
            2 <= n,
            i <= n - 1,
            forall|t: int| 0 <= t < i ==> !implicit_tag_at(s@, t),
        decreases n - i,
    {
        if s.get_char(i) == '{' && s.get_char(i + 1) == '{' {
            if implicit_ref_check(s, i + 2) {
                assert(implicit_tag_at(s@, i as int));
                return true;
            }
            if i + 2 < n {
                let c = s.get_char(i + 2);
                if (c == '&' || c == '{') && implicit_ref_check(s, i + 3) {
                    assert(implicit_tag_at(s@, i as int));
                    return true;
                }
            }
            assert(!implicit_tag_at(s@, i as int));
        } else {
            assert(!implicit_tag_at(s@, i as int));
        }
        i += 1;
    }
    assert(forall|t: int| !implicit_tag_at(s@, t) || t < i) by {
        assert(forall|t: int| implicit_tag_at(s@, t) ==> t + 2 <= n);
    }
    false
}

/// Decides whether a template source is one the library accepts.
pub fn check_template_supported(t: &str) -> (r: bool)
    ensures
        r == template_supported(t@),
{
    let no_partial = !contains_brace_marker(t, '>');
    let no_delim = !contains_brace_marker(t, '=');
    let no_implicit = !contains_implicit_tag(t);
    no_partial && no_delim && no_implicit
}

/// What rendering the template produces: the full page bytes on success, or
/// the partial output written before the failure.
pub uninterp spec fn mustache_render(tmpl: Seq<char>, title: Seq<char>, content: Seq<char>) -> Result<
    Seq<u8>,
    Seq<u8>,
>;

/// Relies on `mustache::compile_str`, `mustache::MapBuilder::insert_str` and
/// `mustache::Template::render_data`. For a template without partial and
/// delimiter-change tags, compiling touches no file, rendering into a `Vec`
/// never sees a write error, and map lookups are by key, so the outcome is a
/// function of the three texts alone. A compile failure yields the empty
/// partial output. A tag naming the implicit iterator would make the
/// renderer panic on the root data map; `requires` excludes such templates.
#[verifier::external_body]
pub(crate) fn render_template(tmpl: &str, title: &str, content: &str) -> (r: Result<
    Vec<u8>,
    Vec<u8>,
>)
    requires
        template_supported(tmpl@),
    ensures
        match mustache_render(tmpl@, title@, content@) {
            Ok(bytes) => r matches Ok(v) && v@ == bytes,
            Err(partial) => r matches Err(v) && v@ == partial,
        },
{
    let template = match mustache::compile_str(tmpl) {
        Ok(t) => t,
        Err(_) => return Err(Vec::new()),
    };
    let data = mustache::MapBuilder::new().insert_str("title", title).insert_str(
        "content",
        content,
    ).build();
    let mut out: Vec<u8> = Vec::new();
    match template.render_data(&mut out, &data) {
        Ok(()) => Ok(out),
        Err(_) => Err(out),
    }
}

/// One HTTP response: a status code, the body bytes, and whether the body
/// was produced as an HTML page (successful renders carry a `text/html`
/// content type; a failure body is served bare).
#[derive(Debug)]
pub struct Response {
    pub status: u16,
    pub body: Vec<u8>,
    pub content_type_html: bool,
}

impl Response {
    /// The value of the `Content-Length` header: the body's size in bytes.
    pub fn content_length(&self) -> (r: usize)
        ensures
            r == self.body@.len(),
    {
        self.body.len()
    }
}

/// How a rendering outcome `m` maps to responses: success keeps the given
/// status, failure turns into a server error that carries the partial output.
pub open spec fn template_outcome_matches(
    m: Result<Seq<u8>, Seq<u8>>,
    ok_status: u16,
    r: Result<Response, Response>,
) -> bool {
    match m {
        Ok(bytes) => r matches Ok(resp) && resp.status == ok_status && resp.body@ == bytes
            && resp.content_type_html,
        Err(partial) => r matches Err(resp) && resp.status == 500 && resp.body@ == partial
            && !resp.content_type_html,
    }
}

} // verus!
