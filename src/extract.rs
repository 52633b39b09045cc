use vstd::prelude::*;

use crate::text::{
    chars_of, last_index_in, last_index_of, lemma_last_index_bounds, skip_ws_backward, skip_ws_forward,
    starts_with, trim, trim_start,
};

verus! {

pub open spec fn delim_at(s: Seq<char>, i: int) -> bool {
    0 <= i && i + 3 <= s.len() && s[i] == '-' && s[i + 1] == '-' && s[i + 2] == '-'
}

/// First index `>= i` where a `---` delimiter starts.
pub open spec fn first_delim_from(s: Seq<char>, i: int) -> Option<int>
    decreases s.len() - i,
{
    if i < 0 || i + 3 > s.len() {
        None
    } else if delim_at(s, i) {
        Some(i)
    } else {
        first_delim_from(s, i + 1)
    }
}

/// End of the line that starts at `p`: the next newline, or the end of `s`.
pub open spec fn line_end(s: Seq<char>, p: int) -> int
    decreases s.len() - p,
{
    if p < 0 || p >= s.len() {
        s.len() as int
    } else if s[p] == '\n' {
        p
    } else {
        line_end(s, p + 1)
    }
}

pub open spec fn title_key() -> Seq<char> {
    seq!['t', 'i', 't', 'l', 'e', ':']
}

/// `s` without one layer of matching surrounding quotes.
pub open spec fn strip_quotes(s: Seq<char>) -> Seq<char> {
    if s.len() >= 2 && s[0] == s.last() && (s[0] == '"' || s[0] == '\'') {
        s.subrange(1, s.len() - 1)
    } else {
        s
    }
}

/// The title that a frontmatter line declares, if it is a `title:` line.
pub open spec fn title_line_value(line: Seq<char>) -> Option<Seq<char>> {
    let t = trim_start(line);
    if starts_with(t, title_key()) {
        Some(strip_quotes(trim(t.subrange(6, t.len() as int))))
    } else {
        None
    }
}

/// The value of the first `title:` line of `block` at or after the line starting at `p`.
pub open spec fn title_in_lines(block: Seq<char>, p: int) -> Option<Seq<char>>
    decreases block.len() - p,
{
    let e = line_end(block, p);
    if p < 0 || p > block.len() {
        None
    } else if title_line_value(block.subrange(p, e)) is Some {
        title_line_value(block.subrange(p, e))
    } else if p <= e < block.len() {
        title_in_lines(block, e + 1)
    } else {
        None
    }
}

/// The title declared in a leading `---` block of `content`.
pub open spec fn frontmatter_title(content: Seq<char>) -> Option<Seq<char>> {
    if delim_at(content, 0) {
        match first_delim_from(content, 3) {
            Some(j) => title_in_lines(content.subrange(3, j), 0),
            None => None,
        }
    } else {
        None
    }
}

/// The last component of a `/`-separated path.
pub open spec fn base_name(path: Seq<char>) -> Seq<char> {
    path.subrange(last_index_of(path, '/') + 1, path.len() as int)
}

/// The base name of `path` without its extension.
pub open spec fn file_stem(path: Seq<char>) -> Option<Seq<char>> {
    let b = base_name(path);
    if b.len() == 0 || b == seq!['.', '.'] {
        None
    } else if last_index_of(b, '.') > 0 {
        Some(b.subrange(0, last_index_of(b, '.')))
    } else {
        Some(b)
    }
}

/// The title of the document `content` stored at `path`.
pub open spec fn title_of(content: Seq<char>, path: Seq<char>) -> Option<Seq<char>> {
    match frontmatter_title(content) {
        Some(t) => Some(t),
        None => file_stem(path),
    }
}

proof fn lemma_line_end_bounds(s: Seq<char>, p: int)
    requires
        0 <= p <= s.len(),
    ensures
        p <= line_end(s, p) <= s.len(),
    decreases s.len() - p,
{
    if p < s.len() && s[p] != '\n' {
        lemma_line_end_bounds(s, p + 1);
    }
}

/// End of the line of `v` that starts at `p`, within `..hi`.
fn find_line_end(v: &Vec<char>, p: usize, hi: usize) -> (e: usize)
    requires
        p <= hi <= v.len(),
    ensures
        p <= e <= hi,
        e as int == line_end(v@.subrange(0, hi as int), p as int),
{
    let ghost s = v@.subrange(0, hi as int);
    let mut e = p;
    while e < hi && v[e] != '\n'
        invariant
            p <= e <= hi <= v.len(),
            s == v@.subrange(0, hi as int),
            line_end(s, p as int) == line_end(s, e as int),
        decreases hi - e,
    {
        e = e + 1;
    }
    e
}

/// Bounds, within `v`, of the title that the line `p..e` declares.
fn line_title_bounds(v: &Vec<char>, p: usize, e: usize) -> (r: Option<(usize, usize)>)
    requires
        p <= e <= v.len(),
    ensures
        match r {
            Some((a, b)) => a <= b <= e && title_line_value(v@.subrange(p as int, e as int))
                == Some(v@.subrange(a as int, b as int)),
            None => title_line_value(v@.subrange(p as int, e as int)) is None,
        },
{
    let ghost line = v@.subrange(p as int, e as int);
    let a = skip_ws_forward(v, p, e);
    let ghost t = trim_start(line);
    assert(t == v@.subrange(a as int, e as int));
    if e - a < 6 {
        return None;
    }
    if !(v[a] == 't' && v[a + 1] == 'i' && v[a + 2] == 't' && v[a + 3] == 'l' && v[a + 4] == 'e'
        && v[a + 5] == ':') {
        assert(t.subrange(0, 6) != title_key()) by {
            assert(t.subrange(0, 6)[0] == v[a as int]);
            assert(t.subrange(0, 6)[1] == v[a + 1]);
            assert(t.subrange(0, 6)[2] == v[a + 2]);
            assert(t.subrange(0, 6)[3] == v[a + 3]);
            assert(t.subrange(0, 6)[4] == v[a + 4]);
            assert(t.subrange(0, 6)[5] == v[a + 5]);
        }
        return None;
    }
    assert(t.subrange(0, 6) =~= title_key());
    let s = skip_ws_forward(v, a + 6, e);
    let f = skip_ws_backward(v, s, e);
    assert(t.subrange(6, t.len() as int) =~= v@.subrange(a + 6, e as int));
    assert(trim(t.subrange(6, t.len() as int)) == v@.subrange(s as int, f as int));
    if f - s >= 2 && v[s] == v[f - 1] && (v[s] == '"' || v[s] == '\'') {
        assert(v@.subrange(s as int, f as int).subrange(1, f - s - 1) =~= v@.subrange(
            s + 1,
            f - 1,
        ));
        Some((s + 1, f - 1))
    } else {
        Some((s, f))
    }
}

/// First index at or after `from` where a `---` delimiter starts.
fn find_delim(v: &Vec<char>, from: usize) -> (r: Option<usize>)
    ensures
        match r {
            Some(j) => from <= j && j + 3 <= v.len() && first_delim_from(v@, from as int) == Some(j as int),
            None => first_delim_from(v@, from as int) is None,
        },
{
    let n = v.len();
    let mut j = from;
    while j < n && n - j >= 3
        invariant
            from <= j,
            n == v.len(),
            first_delim_from(v@, from as int) == first_delim_from(v@, j as int),
        decreases n - j,
    {
        if v[j] == '-' && v[j + 1] == '-' && v[j + 2] == '-' {
            return Some(j);
        }
        j = j + 1;
    }
    None
}

/// Bounds, within `v`, of the title that a leading `---` block of `v` declares.
fn frontmatter_title_bounds(v: &Vec<char>) -> (r: Option<(usize, usize)>)
    ensures
        match r {
            Some((a, b)) => a <= b <= v.len() && frontmatter_title(v@) == Some(
                v@.subrange(a as int, b as int),
            ),
            None => frontmatter_title(v@) is None,
        },
{
    let n = v.len();
    if n < 3 || !(v[0] == '-' && v[1] == '-' && v[2] == '-') {
        return None;
    }
    let j = match find_delim(v, 3) {
        Some(j) => j,
        None => {
            return None;
        },
    };
    let ghost block = v@.subrange(3, j as int);
    let mut p: usize = 3;
    while p <= j
        invariant
            3 <= p <= j + 1,
            j <= v.len(),
            block == v@.subrange(3, j as int),
            frontmatter_title(v@) == title_in_lines(block, p - 3),
        decreases j + 1 - p,
    {
        let e = find_line_end(v, p, j);
        proof {
            assert(v@.subrange(0, j as int).subrange(3, j as int) =~= block);
            lemma_line_end_shift(v@.subrange(0, j as int), 3, p as int);
            assert(block.subrange(p - 3, e - 3) =~= v@.subrange(p as int, e as int));
            lemma_line_end_bounds(block, p - 3);
        }
        match line_title_bounds(v, p, e) {
            Some(ab) => {
                return Some(ab);
            },
            None => {},
        }
        if e >= j {
            return None;
        }
        p = e + 1;
    }
    None
}

/// A line end found in a suffix of `s` is the line end in `s`, shifted.
proof fn lemma_line_end_shift(s: Seq<char>, d: int, p: int)
    requires
        0 <= d <= p <= s.len(),
    ensures
        line_end(s.subrange(d, s.len() as int), p - d) == line_end(s, p) - d,
    decreases s.len() - p,
{
    if p < s.len() && s[p] != '\n' {
        lemma_line_end_shift(s, d, p + 1);
    }
}

/// Bounds, within `v`, of the base name of `v` without its extension.
fn file_stem_bounds(v: &Vec<char>) -> (r: Option<(usize, usize)>)
    ensures
        match r {
            Some((a, b)) => a <= b <= v.len() && file_stem(v@) == Some(
                v@.subrange(a as int, b as int),
            ),
            None => file_stem(v@) is None,
        },
{
    let n = v.len();
    proof {
        assert(v@.subrange(0, n as int) =~= v@);
        lemma_last_index_bounds(v@, '/');
    }
    let start = match last_index_in(v, '/', 0, n) {
        Some(k) => k + 1,
        None => 0,
    };
    let ghost b = base_name(v@);
    assert(b =~= v@.subrange(start as int, n as int));
    if start == n || (n - start == 2 && v[start] == '.' && v[start + 1] == '.') {
        assert(start < n ==> b =~= seq!['.', '.']);
        return None;
    }
    assert(b.len() != 2 || b[0] != '.' || b[1] != '.');
    assert(b != seq!['.', '.']) by {
        if b == seq!['.', '.'] {
            assert(b[0] == '.' && b[1] == '.');
        }
    }
    match last_index_in(v, '.', start, n) {
        Some(d) => {
            if d > 0 {
                proof {
                    lemma_last_index_bounds(b, '.');
                }
                assert(b.subrange(0, d as int) =~= v@.subrange(start as int, start + d));
                Some((start, start + d))
            } else {
                Some((start, n))
            }
        },
        None => Some((start, n)),
    }
}

/// The document's title: the `title:` value of a leading `---` block, trimmed and
/// without one layer of matching quotes, or else the file's base name without
/// its extension.
pub fn extract_title(content: &str, path: &str) -> (r: Option<String>)
    ensures
        r is Some == title_of(content@, path@) is Some,
        r is Some ==> r->0@ == title_of(content@, path@)->0,
{
    let cv = chars_of(content);
    match frontmatter_title_bounds(&cv) {
        Some((a, b)) => {
            let t = content.substring_char(a, b);
            return Some(String::from_str(t));
        },
        None => {},
    }
    let pv = chars_of(path);
    match file_stem_bounds(&pv) {
        Some((a, b)) => Some(String::from_str(path.substring_char(a, b))),
        None => None,
    }
}

} // verus!
