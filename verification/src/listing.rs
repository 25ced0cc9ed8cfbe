//! The page listing: which files of the document directory count as pages,
//! in what order they are shown, and the exact HTML the listing consists of.
//!
//! A directory entry becomes a page when it is a file whose name is a valid
//! title followed by `.md`. The titles are sorted in codepoint order (they
//! are ASCII, so this is also byte order) and rendered as one `<ul>` list;
//! an empty result is the literal text `No pages found`.

use vstd::prelude::*;
use vstd::string::StrSliceExecFns;

use crate::title::is_bad_title;
use crate::title::valid_title;

verus! {

/// One entry of the document directory, as the surrounding program found it:
/// its file name and whether it is a subdirectory.
pub struct Entry {
    pub name: String,
    pub is_dir: bool,
}

/// Lexicographic order on character sequences, by codepoint.
pub open spec fn lex_le(a: Seq<char>, b: Seq<char>) -> bool
    decreases a.len(),
{
    if a.len() == 0 {
        true
    } else if b.len() == 0 {
        false
    } else if a[0] < b[0] {
        true
    } else if b[0] < a[0] {
        false
    } else {
        lex_le(a.drop_first(), b.drop_first())
    }
}

/// `lex_le` is total: two sequences always compare one way or the other.
proof fn lemma_lex_le_total(a: Seq<char>, b: Seq<char>)
    ensures
        lex_le(a, b) || lex_le(b, a),
    decreases a.len(),
{
    if a.len() != 0 && b.len() != 0 && !(a[0] < b[0]) && !(b[0] < a[0]) {
        lemma_lex_le_total(a.drop_first(), b.drop_first());
    }
}

/// `lex_le` is transitive.
proof fn lemma_lex_le_trans(a: Seq<char>, b: Seq<char>, c: Seq<char>)
    requires
        lex_le(a, b),
        lex_le(b, c),
    ensures
        lex_le(a, c),
    decreases a.len(),
{
    if a.len() != 0 && b.len() != 0 && c.len() != 0 && !(a[0] < b[0]) && !(b[0] < a[0]) && !(b[0]
        < c[0]) && !(c[0] < b[0]) {
        lemma_lex_le_trans(a.drop_first(), b.drop_first(), c.drop_first());
    }
}

/// Decides `lex_le` on two strings.
fn title_le(a: &str, b: &str) -> (r: bool)
    ensures
        r == lex_le(a@, b@),
{
    let na = a.unicode_len();
    let nb = b.unicode_len();
    let mut i: usize = 0;
    assert(a@.skip(0) =~= a@);
    assert(b@.skip(0) =~= b@);
    loop
        invariant
            na == a@.len(),
            nb == b@.len(),
            i <= na,
            i <= nb,
            lex_le(a@, b@) == lex_le(a@.skip(i as int), b@.skip(i as int)),
        decreases na - i,
    {
        if i == na {
            assert(lex_le(a@.skip(i as int), b@.skip(i as int)));
            return true;
        }
        if i == nb {
            assert(a@.skip(i as int).len() != 0);
            assert(!lex_le(a@.skip(i as int), b@.skip(i as int)));
            return false;
        }
        let ca = a.get_char(i);
        let cb = b.get_char(i);
        assert(a@.skip(i as int)[0] == a@[i as int]);
        assert(b@.skip(i as int)[0] == b@[i as int]);
        if ca < cb {
            return true;
        }
        if cb < ca {
            return false;
        }
        assert(a@.skip(i as int).drop_first() =~= a@.skip(i as int + 1));
        assert(b@.skip(i as int).drop_first() =~= b@.skip(i as int + 1));
        i += 1;
    }
}

/// The Markdown file extension, as characters.
pub open spec fn md_suffix() -> Seq<char> {
    seq!['.', 'm', 'd']
}

/// The file name ends in `.md`.
pub open spec fn has_md_ext(name: Seq<char>) -> bool {
    name.len() >= 3 && name.subrange(name.len() - 3, name.len() as int) == md_suffix()
}

/// The file name with the extension stripped.
pub open spec fn stem_of(name: Seq<char>) -> Seq<char> {
    name.subrange(0, name.len() - 3)
}

/// The entry counts as a page: a file, named `<valid title>.md`.
pub open spec fn keeps_entry(e: Entry) -> bool {
    !e.is_dir && has_md_ext(e.name@) && valid_title(stem_of(e.name@))
}

/// The titles of the pages among `entries`, in directory order.
pub open spec fn filtered_titles(entries: Seq<Entry>) -> Seq<Seq<char>>
    decreases entries.len(),
{
    if entries.len() == 0 {
        Seq::empty()
    } else if keeps_entry(entries.last()) {
        filtered_titles(entries.drop_last()).push(stem_of(entries.last().name@))
    } else {
        filtered_titles(entries.drop_last())
    }
}

/// `x` placed before the first element of `s` that is at least `x`.
pub open spec fn insert_sorted(x: Seq<char>, s: Seq<Seq<char>>) -> Seq<Seq<char>>
    decreases s.len(),
{
    if s.len() == 0 {
        seq![x]
    } else if lex_le(x, s[0]) {
        seq![x] + s
    } else {
        seq![s[0]] + insert_sorted(x, s.drop_first())
    }
}

/// Insertion sort of a sequence of titles.
pub open spec fn sort_titles_spec(s: Seq<Seq<char>>) -> Seq<Seq<char>>
    decreases s.len(),
{
    if s.len() == 0 {
        Seq::empty()
    } else {
        insert_sorted(s.last(), sort_titles_spec(s.drop_last()))
    }
}

/// The titles the listing shows, in the order it shows them.
pub open spec fn listing_titles(entries: Seq<Entry>) -> Seq<Seq<char>> {
    sort_titles_spec(filtered_titles(entries))
}

/// The sequence is sorted by `lex_le`.
pub open spec fn sorted_le(s: Seq<Seq<char>>) -> bool {
    forall|i: int, j: int| 0 <= i < j < s.len() ==> lex_le(s[i], s[j])
}

/// How often `x` occurs in `s`.
pub open spec fn count_of(s: Seq<Seq<char>>, x: Seq<char>) -> nat
    decreases s.len(),
{
    if s.len() == 0 {
        0
    } else {
        count_of(s.drop_last(), x) + if s.last() == x {
            1nat
        } else {
            0nat
        }
    }
}

/// No two entries carry the same file name, as holds of a directory.
pub open spec fn distinct_names(entries: Seq<Entry>) -> bool {
    forall|i: int, j: int| 0 <= i < j < entries.len() ==> entries[i].name@ != entries[j].name@
}

proof fn lemma_count_cons(y: Seq<char>, s: Seq<Seq<char>>, x: Seq<char>)
    ensures
        count_of(seq![y] + s, x) == count_of(s, x) + if y == x {
            1nat
        } else {
            0nat
        },
    decreases s.len(),
{
    let a = seq![y] + s;
    if s.len() == 0 {
        assert(a =~= seq![y]);
        assert(a.drop_last() =~= Seq::<Seq<char>>::empty());
        assert(a.last() == y);
        assert(count_of(a.drop_last(), x) == 0);
        assert(count_of(a, x) == count_of(a.drop_last(), x) + (if a.last() == x {
            1nat
        } else {
            0nat
        }));
    } else {
        assert(a.drop_last() =~= seq![y] + s.drop_last());
        assert(a.last() == s.last());
        lemma_count_cons(y, s.drop_last(), x);
        assert(count_of(a, x) == count_of(a.drop_last(), x) + (if a.last() == x {
            1nat
        } else {
            0nat
        }));
        assert(count_of(s, x) == count_of(s.drop_last(), x) + (if s.last() == x {
            1nat
        } else {
            0nat
        }));
    }
}

proof fn lemma_insert_count(x: Seq<char>, s: Seq<Seq<char>>, t: Seq<char>)
    ensures
        count_of(insert_sorted(x, s), t) == count_of(s, t) + if x == t {
            1nat
        } else {
            0nat
        },
    decreases s.len(),
{
    if s.len() == 0 {
        lemma_count_cons(x, Seq::empty(), t);
        assert(seq![x] + Seq::<Seq<char>>::empty() =~= seq![x]);
        assert(insert_sorted(x, s) =~= seq![x]);
    } else if lex_le(x, s[0]) {
        lemma_count_cons(x, s, t);
    } else {
        lemma_count_cons(s[0], insert_sorted(x, s.drop_first()), t);
        lemma_insert_count(x, s.drop_first(), t);
        assert(s =~= seq![s[0]] + s.drop_first());
        lemma_count_cons(s[0], s.drop_first(), t);
    }
}

proof fn lemma_sort_count(s: Seq<Seq<char>>, t: Seq<char>)
    ensures
        count_of(sort_titles_spec(s), t) == count_of(s, t),
    decreases s.len(),
{
    if s.len() > 0 {
        lemma_sort_count(s.drop_last(), t);
        lemma_insert_count(s.last(), sort_titles_spec(s.drop_last()), t);
    }
}

proof fn lemma_insert_lower_bound(y: Seq<char>, x: Seq<char>, s: Seq<Seq<char>>)
    requires
        lex_le(y, x),
        forall|k: int| 0 <= k < s.len() ==> lex_le(y, s[k]),
    ensures
        forall|k: int|
            0 <= k < insert_sorted(x, s).len() ==> lex_le(y, #[trigger] insert_sorted(x, s)[k]),
    decreases s.len(),
{
    if s.len() != 0 && !lex_le(x, s[0]) {
        assert(forall|k: int| 0 <= k < s.drop_first().len() ==> lex_le(y, s.drop_first()[k]));
        lemma_insert_lower_bound(y, x, s.drop_first());
    }
    assert forall|k: int| 0 <= k < insert_sorted(x, s).len() implies lex_le(
        y,
        insert_sorted(x, s)[k],
    ) by {
        if s.len() == 0 {
            assert(insert_sorted(x, s)[k] == x);
        } else if lex_le(x, s[0]) {
            if k == 0 {
                assert(insert_sorted(x, s)[k] == x);
            } else {
                assert(insert_sorted(x, s)[k] == s[k - 1]);
            }
        } else {
            if k == 0 {
                assert(insert_sorted(x, s)[k] == s[0]);
            } else {
                assert(insert_sorted(x, s)[k] == insert_sorted(x, s.drop_first())[k - 1]);
            }
        }
    }
}

proof fn lemma_insert_preserves_sorted(x: Seq<char>, s: Seq<Seq<char>>)
    requires
        sorted_le(s),
    ensures
        sorted_le(insert_sorted(x, s)),
    decreases s.len(),
{
    if s.len() == 0 {
    } else if lex_le(x, s[0]) {
        let r = seq![x] + s;
        assert forall|i: int, j: int| 0 <= i < j < r.len() implies lex_le(r[i], r[j]) by {
            if i == 0 {
                if j > 1 {
                    lemma_lex_le_trans(x, s[0], s[j - 1]);
                }
            }
        }
    } else {
        lemma_lex_le_total(x, s[0]);
        assert(forall|i: int, j: int|
            0 <= i < j < s.drop_first().len() ==> lex_le(
                #[trigger] s.drop_first()[i],
                #[trigger] s.drop_first()[j],
            ));
        lemma_insert_preserves_sorted(x, s.drop_first());
        assert(forall|k: int| 0 <= k < s.drop_first().len() ==> lex_le(s[0], s.drop_first()[k]));
        lemma_insert_lower_bound(s[0], x, s.drop_first());
        let r = seq![s[0]] + insert_sorted(x, s.drop_first());
        assert forall|i: int, j: int| 0 <= i < j < r.len() implies lex_le(r[i], r[j]) by {
            if i > 0 {
                assert(r[i] == insert_sorted(x, s.drop_first())[i - 1]);
                assert(r[j] == insert_sorted(x, s.drop_first())[j - 1]);
            }
        }
    }
}

proof fn lemma_sort_sorted(s: Seq<Seq<char>>)
    ensures
        sorted_le(sort_titles_spec(s)),
    decreases s.len(),
{
    if s.len() > 0 {
        lemma_sort_sorted(s.drop_last());
        lemma_insert_preserves_sorted(s.last(), sort_titles_spec(s.drop_last()));
    }
}

/// A name with the `.md` extension is its stem followed by `.md`.
proof fn lemma_stem_name(name: Seq<char>)
    requires
        has_md_ext(name),
    ensures
        name == stem_of(name) + md_suffix(),
{
    assert(name =~= name.subrange(0, name.len() - 3) + name.subrange(
        name.len() - 3,
        name.len() as int,
    ));
}

proof fn lemma_filtered_membership(entries: Seq<Entry>, t: Seq<char>)
    ensures
        count_of(filtered_titles(entries), t) > 0 <==> (exists|i: int|
            0 <= i < entries.len() && #[trigger] keeps_entry(entries[i]) && stem_of(
                entries[i].name@,
            ) == t),
    decreases entries.len(),
{
    if entries.len() == 0 {
    } else {
        let prefix = entries.drop_last();
        lemma_filtered_membership(prefix, t);
        let f = filtered_titles(prefix);
        if keeps_entry(entries.last()) {
            assert(filtered_titles(entries) == f.push(stem_of(entries.last().name@)));
            assert(f.push(stem_of(entries.last().name@)).drop_last() =~= f);
        }
        if count_of(filtered_titles(entries), t) > 0 {
            if keeps_entry(entries.last()) && stem_of(entries.last().name@) == t {
                assert(keeps_entry(entries[entries.len() - 1]));
            } else {
                let i = choose|i: int|
                    0 <= i < prefix.len() && #[trigger] keeps_entry(prefix[i]) && stem_of(
                        prefix[i].name@,
                    ) == t;
                assert(keeps_entry(entries[i]));
            }
        }
        if exists|i: int|
            0 <= i < entries.len() && #[trigger] keeps_entry(entries[i]) && stem_of(
                entries[i].name@,
            ) == t {
            let i = choose|i: int|
                0 <= i < entries.len() && #[trigger] keeps_entry(entries[i]) && stem_of(
                    entries[i].name@,
                ) == t;
            if i < entries.len() - 1 {
                assert(keeps_entry(prefix[i]));
                assert(count_of(f, t) > 0);
            }
        }
    }
}

proof fn lemma_filtered_at_most_once(entries: Seq<Entry>)
    requires
        distinct_names(entries),
    ensures
        forall|t: Seq<char>| count_of(filtered_titles(entries), t) <= 1,
    decreases entries.len(),
{
    if entries.len() == 0 {
    } else {
        let prefix = entries.drop_last();
        assert(distinct_names(prefix));
        lemma_filtered_at_most_once(prefix);
        let f = filtered_titles(prefix);
        if keeps_entry(entries.last()) {
            let t0 = stem_of(entries.last().name@);
            assert(f.push(t0).drop_last() =~= f);
            assert(count_of(f, t0) == 0) by {
                if count_of(f, t0) > 0 {
                    lemma_filtered_membership(prefix, t0);
                    let i = choose|i: int|
                        0 <= i < prefix.len() && #[trigger] keeps_entry(prefix[i]) && stem_of(
                            prefix[i].name@,
                        ) == t0;
                    lemma_stem_name(entries[i].name@);
                    lemma_stem_name(entries.last().name@);
                    assert(entries[i].name@ == entries[entries.len() - 1].name@);
                }
            }
            assert(forall|t: Seq<char>| count_of(filtered_titles(entries), t) <= 1) by {
                assert(forall|t: Seq<char>|
                    count_of(filtered_titles(entries), t) == count_of(f, t) + if t == t0 {
                        1nat
                    } else {
                        0nat
                    });
            }
        }
    }
}

/// Law: the page listing is lexicographically sorted.
pub proof fn lemma_listing_sorted(entries: Seq<Entry>)
    ensures
        sorted_le(listing_titles(entries)),
{
    lemma_sort_sorted(filtered_titles(entries));
}

/// Law: with distinct file names — as a directory guarantees — no title
/// appears in the listing twice.
pub proof fn lemma_listing_no_duplicates(entries: Seq<Entry>)
    requires
        distinct_names(entries),
    ensures
        forall|t: Seq<char>| count_of(listing_titles(entries), t) <= 1,
{
    lemma_filtered_at_most_once(entries);
    assert forall|t: Seq<char>| count_of(listing_titles(entries), t) <= 1 by {
        lemma_sort_count(filtered_titles(entries), t);
    }
}

/// Law: a title appears in the listing exactly when some directory entry is
/// a file named `<title>.md` with a valid title.
pub proof fn lemma_listing_membership(entries: Seq<Entry>, t: Seq<char>)
    ensures
        count_of(listing_titles(entries), t) > 0 <==> (exists|i: int|
            0 <= i < entries.len() && #[trigger] keeps_entry(entries[i]) && stem_of(
                entries[i].name@,
            ) == t),
{
    lemma_sort_count(filtered_titles(entries), t);
    lemma_filtered_membership(entries, t);
}

/// Law: a file `f.md` whose stem passes validation appears in the listing
/// exactly once, given distinct file names.
pub proof fn lemma_listing_exactly_once(entries: Seq<Entry>, i: int)
    requires
        distinct_names(entries),
        0 <= i < entries.len(),
        keeps_entry(entries[i]),
    ensures
        count_of(listing_titles(entries), stem_of(entries[i].name@)) == 1,
{
    lemma_listing_membership(entries, stem_of(entries[i].name@));
    lemma_listing_no_duplicates(entries);
}

/// The views of a sequence of strings.
pub open spec fn views_of(s: Seq<String>) -> Seq<Seq<char>> {
    s.map_values(|t: String| t@)
}

proof fn lemma_insert_sorted_position(x: Seq<char>, s: Seq<Seq<char>>, k: int)
    requires
        0 <= k <= s.len(),
        forall|j: int| 0 <= j < k ==> !lex_le(x, s[j]),
        k < s.len() ==> lex_le(x, s[k]),
    ensures
        insert_sorted(x, s) == s.insert(k, x),
    decreases k,
{
    if k == 0 {
        if s.len() == 0 {
            assert(insert_sorted(x, s) =~= s.insert(0, x));
        } else {
            assert(seq![x] + s =~= s.insert(0, x));
        }
    } else {
        assert(!lex_le(x, s[0]));
        assert(forall|j: int| 0 <= j < k - 1 ==> !lex_le(x, #[trigger] s.drop_first()[j]));
        assert(k - 1 < s.drop_first().len() ==> lex_le(x, s.drop_first()[k - 1]));
        lemma_insert_sorted_position(x, s.drop_first(), k - 1);
        assert(seq![s[0]] + s.drop_first().insert(k - 1, x) =~= s.insert(k, x));
    }
}

/// Places `x` where the sorted order wants it.
fn insert_title(v: &mut Vec<String>, x: String)
    ensures
        views_of(final(v)@) == insert_sorted(x@, views_of(old(v)@)),
{
    let n = v.len();
    let mut k: usize = 0;
    while k < n && !title_le(x.as_str(), v[k].as_str())
        invariant
            v@ == old(v)@,
            n == v@.len(),
            k <= n,
            forall|j: int| 0 <= j < k ==> !lex_le(x@, #[trigger] views_of(v@)[j]),
        decreases n - k,
    {
        k += 1;
    }
    proof {
        lemma_insert_sorted_position(x@, views_of(v@), k as int);
    }
    let ghost before = v@;
    v.insert(k, x);
    proof {
        assert(views_of(v@) =~= views_of(before).insert(k as int, x@));
    }
}

/// Insertion sort on titles.
fn sort_titles(v: &Vec<String>) -> (r: Vec<String>)
    ensures
        views_of(r@) == sort_titles_spec(views_of(v@)),
{
    let mut r: Vec<String> = Vec::new();
    assert(views_of(r@) =~= Seq::<Seq<char>>::empty());
    assert(views_of(v@).take(0) =~= Seq::<Seq<char>>::empty());
    let mut i: usize = 0;
    while i < v.len()
        invariant
            i <= v@.len(),
            views_of(r@) == sort_titles_spec(views_of(v@).take(i as int)),
        decreases v@.len() - i,
    {
        let x = v[i].clone();
        insert_title(&mut r, x);
        proof {
            assert(views_of(v@).take(i as int + 1).drop_last() =~= views_of(v@).take(i as int));
            assert(views_of(v@).take(i as int + 1).last() == v@[i as int]@);
        }
        i += 1;
    }
    proof {
        assert(views_of(v@).take(v@.len() as int) =~= views_of(v@));
    }
    r
}

/// Collects the page titles of a directory snapshot, in directory order.
fn collect_titles(entries: &Vec<Entry>) -> (r: Vec<String>)
    ensures
        views_of(r@) == filtered_titles(entries@),
{
    let mut r: Vec<String> = Vec::new();
    assert(views_of(r@) =~= Seq::<Seq<char>>::empty());
    assert(entries@.take(0) =~= Seq::<Entry>::empty());
    let mut i: usize = 0;
    while i < entries.len()
        invariant
            i <= entries@.len(),
            views_of(r@) == filtered_titles(entries@.take(i as int)),
        decreases entries@.len() - i,
    {
        proof {
            assert(entries@.take(i as int + 1).drop_last() =~= entries@.take(i as int));
            assert(entries@.take(i as int + 1).last() == entries@[i as int]);
        }
        let e = &entries[i];
        if !e.is_dir {
            let name = e.name.as_str();
            let n = name.unicode_len();
            if n >= 3 {
                let c0 = name.get_char(n - 3);
                let c1 = name.get_char(n - 2);
                let c2 = name.get_char(n - 1);
                if c0 == '.' && c1 == 'm' && c2 == 'd' {
                    assert(name@.subrange(name@.len() - 3, name@.len() as int) =~= md_suffix());
                    let stem = name.substring_char(0, n - 3);
                    assert(stem@ == stem_of(name@));
                    if !is_bad_title(stem) {
                        let ghost before = r@;
                        r.push(stem.to_owned());
                        proof {
                            assert(views_of(r@) =~= views_of(before).push(stem@));
                        }
                    }
                } else {
                    assert(!has_md_ext(name@)) by {
                        if has_md_ext(name@) {
                            let sub = name@.subrange(name@.len() - 3, name@.len() as int);
                            assert(sub[0] == name@[name@.len() - 3]);
                            assert(sub[1] == name@[name@.len() - 2]);
                            assert(sub[2] == name@[name@.len() - 1]);
                        }
                    }
                }
            }
        }
        i += 1;
    }
    proof {
        assert(entries@.take(entries@.len() as int) =~= entries@);
    }
    r
}

/// The HTML of a listing for the given titles, in their given order.
pub open spec fn li_of(t: Seq<char>) -> Seq<char> {
    "<li><a href=\"/pages/"@ + t + "\">"@ + t + "</a></li>"@
}

/// The list items, concatenated without separators.
pub open spec fn items_html(ts: Seq<Seq<char>>) -> Seq<char>
    decreases ts.len(),
{
    if ts.len() == 0 {
        Seq::empty()
    } else {
        items_html(ts.drop_last()) + li_of(ts.last())
    }
}

/// The listing body: a `<ul>` of links, or the fixed text when no page exists.
pub open spec fn listing_html(ts: Seq<Seq<char>>) -> Seq<char> {
    if ts.len() == 0 {
        "No pages found"@
    } else {
        "<ul>\n"@ + items_html(ts) + "</ul>"@
    }
}

/// The listing for a directory snapshot: a missing or unreadable directory
/// reads as having no pages.
pub open spec fn listing_of(dir: Option<Seq<Entry>>) -> Seq<char> {
    match dir {
        Some(entries) => listing_html(listing_titles(entries)),
        None => "No pages found"@,
    }
}

/// The snapshot a listing is computed from.
pub open spec fn dir_view(dir: Option<&Vec<Entry>>) -> Option<Seq<Entry>> {
    match dir {
        Some(v) => Some(v@),
        None => None,
    }
}

fn build_listing(titles: &Vec<String>) -> (r: String)
    ensures
        r@ == listing_html(views_of(titles@)),
{
    if titles.len() == 0 {
        return "No pages found".to_owned();
    }
    let mut out = "<ul>\n".to_owned();
    assert(views_of(titles@).take(0) =~= Seq::<Seq<char>>::empty());
    assert(out@ =~= "<ul>\n"@ + items_html(views_of(titles@).take(0)));
    let mut i: usize = 0;
    while i < titles.len()
        invariant
            i <= titles@.len(),
            out@ == "<ul>\n"@ + items_html(views_of(titles@).take(i as int)),
        decreases titles@.len() - i,
    {
        out.append("<li><a href=\"/pages/");
        out.append(titles[i].as_str());
        out.append("\">");
        out.append(titles[i].as_str());
        out.append("</a></li>");
        proof {
            assert(views_of(titles@).take(i as int + 1).drop_last() =~= views_of(titles@).take(
                i as int,
            ));
            assert(views_of(titles@).take(i as int + 1).last() == titles@[i as int]@);
            assert(out@ =~= "<ul>\n"@ + items_html(views_of(titles@).take(i as int + 1)));
        }
        i += 1;
    }
    out.append("</ul>");
    proof {
        assert(views_of(titles@).take(titles@.len() as int) =~= views_of(titles@));
        assert(out@ =~= "<ul>\n"@ + items_html(views_of(titles@)) + "</ul>"@);
    }
    out
}

/// The whole listing computation, from a directory snapshot to the HTML body.
pub(crate) fn render_listing(dir: Option<&Vec<Entry>>) -> (r: String)
    ensures
        r@ == listing_of(dir_view(dir)),
{
    match dir {
        None => "No pages found".to_owned(),
        Some(entries) => {
            let titles = collect_titles(entries);
            let sorted = sort_titles(&titles);
            build_listing(&sorted)
        },
    }
}

} // verus!
