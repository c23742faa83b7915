//! File names, extensions and the template marker, on path strings.
use crate::text::{chars_of, string_of};
use vstd::prelude::*;

verus! {

/// The extension that flags a file as a template to render.
pub const MARKER_EXTENSION: &'static str = "chrobry-marker";

/// The extension that flags a template source as a zip archive.
pub const ARCHIVE_EXTENSION: &'static str = "zip";

/// Index `i` holds the last `c` of `s`.
pub open spec fn is_last(s: Seq<char>, c: char, i: int) -> bool {
    &&& 0 <= i < s.len()
    &&& s[i] == c
    &&& forall|j: int| i < j < s.len() ==> s[j] != c
}

/// `s` holds no `c`.
pub open spec fn free_of(s: Seq<char>, c: char) -> bool {
    forall|j: int| 0 <= j < s.len() ==> s[j] != c
}

/// The index of the last `c` of `s`, or -1 where there is none.
pub open spec fn last_index(s: Seq<char>, c: char) -> int {
    if free_of(s, c) {
        -1
    } else {
        choose|i: int| is_last(s, c, i)
    }
}

/// The path without its trailing separators and trailing `.` components.
pub open spec fn trimmed(p: Seq<char>) -> Seq<char>
    decreases p.len(),
{
    if p.len() > 0 && p.last() == '/' {
        trimmed(p.drop_last())
    } else if p.len() > 1 && p.last() == '.' && p[p.len() - 2] == '/' {
        trimmed(p.drop_last())
    } else {
        p
    }
}

/// The last component of the path: what follows its last `/`, trailing
/// separators and `.` components left aside.
pub open spec fn file_name(p: Seq<char>) -> Seq<char> {
    let t = trimmed(p);
    t.skip(last_index(t, '/') + 1)
}

/// The extension of the path's last component: what follows its last `.`,
/// unless it has no `.`, its only `.` is its first character, or it is `..`.
pub open spec fn extension(p: Seq<char>) -> Option<Seq<char>> {
    let f = file_name(p);
    let d = last_index(f, '.');
    if d <= 0 || f == seq!['.', '.'] {
        None
    } else {
        Some(f.skip(d + 1))
    }
}

/// The path carries the template marker extension.
pub open spec fn is_marked(p: Seq<char>) -> bool {
    extension(p) == Some(MARKER_EXTENSION@)
}

/// The path with the marker extension and its `.` taken off the last component.
pub open spec fn unmarked(p: Seq<char>) -> Seq<char> {
    let t = trimmed(p);
    t.take(t.len() - MARKER_EXTENSION@.len() - 1)
}

proof fn lemma_trimmed_len(p: Seq<char>)
    ensures
        trimmed(p).len() <= p.len(),
    decreases p.len(),
{
    if p.len() > 0 && (p.last() == '/' || (p.len() > 1 && p.last() == '.' && p[p.len() - 2]
        == '/')) {
        lemma_trimmed_len(p.drop_last());
    }
}

proof fn lemma_last_index_range(s: Seq<char>, c: char)
    ensures
        -1 <= last_index(s, c) < s.len(),
        last_index(s, c) >= 0 ==> is_last(s, c, last_index(s, c)),
{
    if !free_of(s, c) {
        let j = choose|j: int| 0 <= j < s.len() && s[j] == c;
        assert(exists|i: int| is_last(s, c, i)) by {
            lemma_exists_last(s, c, j);
        }
    }
}

proof fn lemma_exists_last(s: Seq<char>, c: char, j: int)
    requires
        0 <= j < s.len(),
        s[j] == c,
    ensures
        exists|i: int| is_last(s, c, i),
    decreases s.len() - j,
{
    if !is_last(s, c, j) {
        let k = choose|k: int| j < k < s.len() && s[k] == c;
        lemma_exists_last(s, c, k);
    }
}

/// A marked path is longer than its unmarked form, which keeps all of it but
/// the marker.
pub proof fn lemma_unmarked_shorter(p: Seq<char>)
    requires
        is_marked(p),
    ensures
        trimmed(p).len() > MARKER_EXTENSION@.len(),
        unmarked(p).len() < p.len(),
        unmarked(p) != p,
{
    reveal_strlit("chrobry-marker");
    let t = trimmed(p);
    lemma_trimmed_len(p);
    lemma_last_index_range(t, '/');
    let f = file_name(p);
    lemma_last_index_range(f, '.');
}

/// A marked path without trailing separators is its unmarked form followed by
/// `.` and the marker.
pub proof fn lemma_unmarked_then_marker(p: Seq<char>)
    requires
        is_marked(p),
        trimmed(p) == p,
    ensures
        p == unmarked(p) + seq!['.'] + MARKER_EXTENSION@,
{
    reveal_strlit("chrobry-marker");
    let t = trimmed(p);
    assert(t == p);
    lemma_unmarked_shorter(p);
    lemma_last_index_range(t, '/');
    let k = last_index(t, '/');
    let f = file_name(p);
    lemma_last_index_range(f, '.');
    let d = last_index(f, '.');
    let n = p.len();
    assert(f.len() == n - k - 1);
    assert(f.skip(d + 1) == MARKER_EXTENSION@);
    assert(f.len() == d + 15);
    assert(p[n - 15] == f[d]);
    assert forall|i: int| 0 <= i < 14 implies p[n - 14 + i] == MARKER_EXTENSION@[i] by {
        assert(p[n - 14 + i] == f[d + 1 + i]);
        assert(f.skip(d + 1)[i] == f[d + 1 + i]);
    }
    assert(p =~= unmarked(p) + seq!['.'] + MARKER_EXTENSION@);
}

proof fn lemma_last(s: Seq<char>, c: char, i: int)
    requires
        is_last(s, c, i),
    ensures
        last_index(s, c) == i,
{
    assert(s[i] == c);
    assert(!free_of(s, c));
    let k = choose|k: int| is_last(s, c, k);
    assert(is_last(s, c, k));
    if k < i {
        assert(s[k] == c);
    }
}

/// The index of the last `c` of `s[lo..hi]`, or `None` if it has none.
fn find_last(s: &Vec<char>, c: char, lo: usize, hi: usize) -> (r: Option<usize>)
    requires
        lo <= hi <= s@.len(),
    ensures
        r is None <==> free_of(s@.subrange(lo as int, hi as int), c),
        r matches Some(k) ==> lo <= k < hi && k - lo == last_index(
            s@.subrange(lo as int, hi as int),
            c,
        ),
{
    let ghost sub = s@.subrange(lo as int, hi as int);
    let mut i: usize = hi;
    while i > lo
        invariant
            lo <= i <= hi <= s@.len(),
            sub == s@.subrange(lo as int, hi as int),
            forall|j: int| i <= j < hi ==> s@[j] != c,
        decreases i - lo,
    {
        if s[i - 1] == c {
            proof {
                assert(sub[i - 1 - lo] == c);
                assert forall|j: int| i - 1 - lo < j < sub.len() implies sub[j] != c by {
                    assert(sub[j] == s@[j + lo]);
                }
                assert(is_last(sub, c, i - 1 - lo));
                lemma_last(sub, c, i - 1 - lo);
            }
            return Some(i - 1);
        }
        i = i - 1;
    }
    assert(free_of(sub, c)) by {
        assert forall|j: int| 0 <= j < sub.len() implies sub[j] != c by {
            assert(sub[j] == s@[j + lo]);
        }
    }
    None
}

/// Length of the path once trailing separators are taken off.
fn trimmed_len(cs: &Vec<char>) -> (r: usize)
    ensures
        r <= cs@.len(),
        cs@.take(r as int) == trimmed(cs@),
{
    let mut n: usize = cs.len();
    assert(cs@.take(n as int) =~= cs@);
    while n > 0 && (cs[n - 1] == '/' || (n > 1 && cs[n - 1] == '.' && cs[n - 2] == '/'))
        invariant
            n <= cs@.len(),
            trimmed(cs@.take(n as int)) == trimmed(cs@),
        decreases n,
    {
        assert(cs@.take(n as int).drop_last() =~= cs@.take(n - 1));
        assert(cs@.take(n as int).last() == cs@[n - 1]);
        assert(n > 1 ==> cs@.take(n as int)[n - 2] == cs@[n - 2]);
        n = n - 1;
    }
    n
}

/// The extension of the path's last component, by the rule that
/// `std::path::Path::extension` documents.
pub fn file_extension(path: &str) -> (r: Option<String>)
    ensures
        r is None <==> extension(path@) is None,
        r matches Some(e) ==> extension(path@) == Some(e@),
        r matches Some(e) ==> e@.len() < trimmed(path@).len(),
{
    let cs = chars_of(path);
    let n = trimmed_len(&cs);
    let ghost t = trimmed(path@);
    let slash = find_last(&cs, '/', 0, n);
    assert(cs@.subrange(0, n as int) =~= t);
    let start: usize = match slash {
        Some(k) => k + 1,
        None => 0,
    };
    let ghost f = file_name(path@);
    assert(cs@.subrange(start as int, n as int) =~= f);
    let dot = find_last(&cs, '.', start, n);
    let ghost d = last_index(f, '.');
    let dot: usize = match dot {
        Some(k) => k,
        None => {
            return None;
        },
    };
    if dot == start {
        return None;
    }
    if n - start == 2 && cs[start] == '.' && cs[start + 1] == '.' {
        assert(f =~= seq!['.', '.']);
        return None;
    }
    assert(f != seq!['.', '.']) by {
        if f == seq!['.', '.'] {
            assert(f[0] == '.' && f[1] == '.');
        }
    }
    let e = string_of(cs.as_slice(), dot + 1, n);
    assert(e@ =~= f.skip(d + 1));
    Some(e)
}

/// Where a template file's rendered content goes: the path with the marker
/// extension taken off; `None` where the path does not carry the marker.
pub fn template_destination(path: &str) -> (r: Option<String>)
    ensures
        r is Some <==> is_marked(path@),
        r matches Some(d) ==> d@ == unmarked(path@),
{
    match file_extension(path) {
        Some(e) => {
            let marker = MARKER_EXTENSION.to_owned();
            if e == marker {
                let cs = chars_of(path);
                let n = trimmed_len(&cs);
                proof {
                    reveal_strlit("chrobry-marker");
                    assert(MARKER_EXTENSION@.len() == 14);
                }
                Some(string_of(cs.as_slice(), 0, n - 15))
            } else {
                None
            }
        },
        None => None,
    }
}

/// Where a template comes from.
#[derive(Debug, Clone, Copy, PartialEq, Eq, Structural)]
pub enum TemplateSource {
    /// A zip archive, extracted into the output directory.
    Archive,
    /// A directory, whose children are copied into the output directory.
    Directory,
}

/// Classifies a template path by its extension alone: a `zip` extension
/// makes it an archive, anything else a directory.
pub fn source_kind(template: &str) -> (r: TemplateSource)
    ensures
        r == TemplateSource::Archive <==> extension(template@) == Some(ARCHIVE_EXTENSION@),
{
    match file_extension(template) {
        Some(e) => {
            let zip = ARCHIVE_EXTENSION.to_owned();
            if e == zip {
                TemplateSource::Archive
            } else {
                TemplateSource::Directory
            }
        },
        None => TemplateSource::Directory,
    }
}

} // verus!
