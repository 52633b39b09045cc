use vstd::prelude::*;

use crate::model::opt_view;
use crate::store::IndexError;
use crate::text::{chars_of, lower_of, skip_ws_backward, skip_ws_forward, to_lowercase, trim};

verus! {

/// Most results that a search returns.
pub const MAX_RESULTS: usize = 50;

/// Score of a result whose path holds the query.
pub const PATH_SCORE: u32 = 100;

/// Score of a result whose title alone holds the query.
pub const TITLE_SCORE: u32 = 50;

/// A title or path search result.
#[derive(Debug, Clone, PartialEq, Eq)]
pub struct FileMatch {
    pub path: String,
    pub title: Option<String>,
    pub score: u32,
}

/// A full-text search result.
#[derive(Debug, Clone, PartialEq, Eq)]
pub struct ContentMatch {
    pub path: String,
    pub title: Option<String>,
    pub snippet: String,
    pub matches: usize,
}

/// A stored path and title, as a query returns them.
#[derive(Debug, Clone, PartialEq, Eq)]
pub struct TitleRow {
    pub path: String,
    pub title: Option<String>,
}

/// A stored path and title with a highlighted snippet, as a query returns them.
#[derive(Debug, Clone, PartialEq, Eq)]
pub struct SnippetRow {
    pub path: String,
    pub title: Option<String>,
    pub snippet: String,
}

/// Relies on rusqlite::Connection::prepare and rusqlite::Statement::query_map: runs
/// `sql` with `arg` bound to `?1` and reads a text and a nullable text from each row;
/// a row that cannot be read comes back as `None`.
#[verifier::external_body]
fn query_title_rows(conn: &rusqlite::Connection, sql: &str, arg: &str) -> (r: Result<
    Vec<Option<TitleRow>>,
    rusqlite::Error,
>) {
    let mut stmt = conn.prepare(sql)?;
    let rows = stmt.query_map([arg], |row| Ok(TitleRow { path: row.get(0)?, title: row.get(1)? }))?;
    Ok(rows.map(|r| r.ok()).collect())
}

/// Relies on rusqlite::Connection::prepare and rusqlite::Statement::query_map: runs
/// `sql` with `arg` bound to `?1` and reads a text, a nullable text and a text from
/// each row; the first failure, in preparing or in stepping through the rows, is
/// the result.
#[verifier::external_body]
fn query_snippet_rows(conn: &rusqlite::Connection, sql: &str, arg: &str) -> (r: Result<
    Vec<SnippetRow>,
    rusqlite::Error,
>) {
    let mut stmt = conn.prepare(sql)?;
    let rows = stmt.query_map(
        [arg],
        |row| Ok(SnippetRow { path: row.get(0)?, title: row.get(1)?, snippet: row.get(2)? }),
    )?;
    rows.collect()
}

/// `t` occurs in `s` at index `i`.
pub open spec fn occurs_at(s: Seq<char>, t: Seq<char>, i: int) -> bool {
    0 <= i && i + t.len() <= s.len() && s.subrange(i, i + t.len()) == t
}

/// `t` is a substring of `s`.
pub open spec fn contains(s: Seq<char>, t: Seq<char>) -> bool {
    exists|i: int| occurs_at(s, t, i)
}

/// `s` with each LIKE wildcard and each escape character preceded by `\`.
pub open spec fn escape_like(s: Seq<char>) -> Seq<char>
    decreases s.len(),
{
    if s.len() == 0 {
        Seq::empty()
    } else {
        let c = s.last();
        escape_like(s.drop_last()) + if c == '%' || c == '_' || c == '\\' {
            seq!['\\', c]
        } else {
            seq![c]
        }
    }
}

/// The LIKE pattern that matches the texts holding `s`, read literally.
pub open spec fn like_pattern_of(s: Seq<char>) -> Seq<char> {
    seq!['%'] + escape_like(s) + seq!['%']
}

/// The LIKE pattern, with `\` as its escape character, that matches the texts
/// that hold `q` as a substring: `%` and `_` in `q` match only themselves.
pub fn like_pattern(q: &str) -> (r: String)
    ensures
        r@ == like_pattern_of(q@),
{
    proof {
        reveal_strlit("%");
        reveal_strlit("\\");
    }
    let v = chars_of(q);
    let mut r = String::from_str("%");
    let mut i: usize = 0;
    while i < v.len()
        invariant
            i <= v.len(),
            v@ == q@,
            r@ == seq!['%'] + escape_like(q@.take(i as int)),
        decreases v.len() - i,
    {
        let c = v[i];
        let ghost before = r@;
        assert(q@.take(i + 1).drop_last() =~= q@.take(i as int));
        assert(q@.take(i + 1).last() == c);
        let ghost piece = if c == '%' || c == '_' || c == '\\' {
            seq!['\\', c]
        } else {
            seq![c]
        };
        assert(escape_like(q@.take(i + 1)) == escape_like(q@.take(i as int)) + piece);
        if c == '%' || c == '_' || c == '\\' {
            proof {
                reveal_strlit("\\");
            }
            let esc = "\\";
            assert(esc@.len() == 1 && esc@[0] == '\\');
            assert(esc@ =~= seq!['\\']);
            r.append(esc);
        }
        let one = q.substring_char(i, i + 1);
        assert(one@ =~= seq![c]);
        r.append(one);
        assert(r@ =~= before + piece);
        i = i + 1;
        assert(r@ =~= seq!['%'] + escape_like(q@.take(i as int)));
    }
    assert(q@.take(v.len() as int) =~= q@);
    r.append("%");
    assert(r@ =~= like_pattern_of(q@));
    r
}

/// The score of a result: by its lower-cased path and the lower-cased query.
pub open spec fn path_score(path_lower: Seq<char>, query_lower: Seq<char>) -> u32 {
    if contains(path_lower, query_lower) {
        PATH_SCORE
    } else {
        TITLE_SCORE
    }
}

/// The first `n` elements of `s`, or all of them.
pub open spec fn cap<A>(s: Seq<A>, n: nat) -> Seq<A> {
    if s.len() <= n {
        s
    } else {
        s.take(n as int)
    }
}

/// The matches of `ms` whose score is (or, with `high` false, is not) the path score,
/// in their order.
pub open spec fn keep_tier(ms: Seq<FileMatch>, high: bool) -> Seq<FileMatch>
    decreases ms.len(),
{
    if ms.len() == 0 {
        Seq::empty()
    } else {
        let init = keep_tier(ms.drop_last(), high);
        if (ms.last().score == PATH_SCORE) == high {
            init.push(ms.last())
        } else {
            init
        }
    }
}

/// `ms` ordered by descending score, ties in their order, and cut to the result limit.
pub open spec fn ranked(ms: Seq<FileMatch>) -> Seq<FileMatch> {
    cap(keep_tier(ms, true) + keep_tier(ms, false), MAX_RESULTS as nat)
}

pub open spec fn content_match_of(r: SnippetRow) -> ContentMatch {
    ContentMatch { path: r.path, title: r.title, snippet: r.snippet, matches: 1 }
}

/// The rows as content matches, cut to the result limit.
pub open spec fn content_results(rows: Seq<SnippetRow>) -> Seq<ContentMatch> {
    cap(rows.map_values(|r: SnippetRow| content_match_of(r)), MAX_RESULTS as nat)
}

proof fn lemma_keep_tier(ms: Seq<FileMatch>, high: bool)
    ensures
        keep_tier(ms, high).len() <= ms.len(),
        forall|k: int|
            0 <= k < keep_tier(ms, high).len() ==> ((#[trigger] keep_tier(ms, high)[k]).score
                == PATH_SCORE) == high && ms.contains(keep_tier(ms, high)[k]),
    decreases ms.len(),
{
    if ms.len() > 0 {
        lemma_keep_tier(ms.drop_last(), high);
        let init = keep_tier(ms.drop_last(), high);
        assert forall|k: int| 0 <= k < init.len() implies ms.contains(#[trigger] init[k]) by {
            assert(ms.drop_last().contains(init[k]));
            let j = choose|j: int| 0 <= j < ms.drop_last().len() && ms.drop_last()[j] == init[k];
            assert(ms[j] == ms.drop_last()[j]);
        }
        assert(ms[ms.len() - 1] == ms.last());
    }
}

/// Every ranked match is one of `ms`, the path-score matches come first, and there
/// are at most as many as the result limit.
pub proof fn lemma_ranked(ms: Seq<FileMatch>)
    ensures
        ranked(ms).len() <= MAX_RESULTS,
        forall|k: int| 0 <= k < ranked(ms).len() ==> ms.contains(#[trigger] ranked(ms)[k]),
        forall|i: int, j: int|
            0 <= i < j < ranked(ms).len() && #[trigger] ranked(ms)[j].score == PATH_SCORE
                ==> #[trigger] ranked(ms)[i].score == PATH_SCORE,
{
    lemma_keep_tier(ms, true);
    lemma_keep_tier(ms, false);
    let h = keep_tier(ms, true);
    let l = keep_tier(ms, false);
    let all = h + l;
    assert forall|k: int| 0 <= k < all.len() implies ms.contains(#[trigger] all[k]) by {
        if k < h.len() {
            assert(all[k] == h[k]);
            assert(ms.contains(h[k]));
        } else {
            assert(all[k] == l[k - h.len()]);
            assert(ms.contains(l[k - h.len()]));
        }
    }
    assert forall|k: int| 0 <= k < ranked(ms).len() implies #[trigger] ranked(ms)[k] == all[k] by {}
    assert forall|i: int, j: int|
        0 <= i < j < all.len() && #[trigger] all[j].score == PATH_SCORE implies #[trigger] all[i].score
        == PATH_SCORE by {
        if j < h.len() {
            assert(all[i] == h[i]);
            assert(all[j] == h[j]);
            assert(h[i].score == PATH_SCORE);
        } else {
            assert(all[j] == l[j - h.len()]);
            assert(l[j - h.len()].score != PATH_SCORE);
        }
    }
}

fn copy_title(t: &Option<String>) -> (r: Option<String>)
    ensures
        r == *t,
{
    match t {
        Some(s) => Some(s.clone()),
        None => None,
    }
}

fn copy_match(m: &FileMatch) -> (r: FileMatch)
    ensures
        r == *m,
{
    FileMatch { path: m.path.clone(), title: copy_title(&m.title), score: m.score }
}

/// Whether `t` occurs in `s` at `i`.
fn occurs_at_exec(s: &Vec<char>, t: &Vec<char>, i: usize) -> (b: bool)
    requires
        i + t.len() <= s.len(),
    ensures
        b == occurs_at(s@, t@, i as int),
{
    let mut j: usize = 0;
    while j < t.len()
        invariant
            i + t.len() <= s.len(),
            j <= t.len(),
            forall|k: int| 0 <= k < j ==> s@[i + k] == t@[k],
        decreases t.len() - j,
    {
        if s[i + j] != t[j] {
            assert(s@.subrange(i as int, i + t.len())[j as int] != t@[j as int]);
            return false;
        }
        j = j + 1;
    }
    assert(s@.subrange(i as int, i + t.len()) =~= t@);
    true
}

/// Whether `t` is a substring of `s`.
pub fn contains_chars(s: &Vec<char>, t: &Vec<char>) -> (b: bool)
    ensures
        b == contains(s@, t@),
{
    if t.len() > s.len() {
        return false;
    }
    let last = s.len() - t.len();
    let mut i: usize = 0;
    while i < last
        invariant
            last == s.len() - t.len(),
            i <= last,
            forall|k: int| 0 <= k < i ==> !occurs_at(s@, t@, k),
        decreases last - i,
    {
        if occurs_at_exec(s, t, i) {
            return true;
        }
        i = i + 1;
    }
    occurs_at_exec(s, t, last)
}

/// The score of a result whose lower-cased path is `path_lower`, for the lower-cased
/// query `query_lower`: the path score where the path holds the query, else the title
/// score.
pub fn score_path(path_lower: &str, query_lower: &str) -> (s: u32)
    ensures
        s == path_score(path_lower@, query_lower@),
{
    let p = chars_of(path_lower);
    let q = chars_of(query_lower);
    if contains_chars(&p, &q) {
        PATH_SCORE
    } else {
        TITLE_SCORE
    }
}

/// `matches` ordered by descending score, ties kept in their order, cut to the
/// result limit.
pub fn rank_matches(matches: &Vec<FileMatch>) -> (r: Vec<FileMatch>)
    ensures
        r@ == ranked(matches@),
{
    let mut high: Vec<FileMatch> = Vec::new();
    let mut low: Vec<FileMatch> = Vec::new();
    let mut i: usize = 0;
    while i < matches.len()
        invariant
            i <= matches.len(),
            high@ == keep_tier(matches@.take(i as int), true),
            low@ == keep_tier(matches@.take(i as int), false),
        decreases matches.len() - i,
    {
        let m = copy_match(&matches[i]);
        assert(matches@.take(i + 1).drop_last() =~= matches@.take(i as int));
        if matches[i].score == PATH_SCORE {
            high.push(m);
        } else {
            low.push(m);
        }
        i = i + 1;
    }
    assert(matches@.take(matches.len() as int) =~= matches@);
    high.append(&mut low);
    if high.len() > MAX_RESULTS {
        high.truncate(MAX_RESULTS);
    }
    high
}

/// The rows as content matches, cut to the result limit.
pub fn collect_content_matches(rows: &Vec<SnippetRow>) -> (r: Vec<ContentMatch>)
    ensures
        r@ == content_results(rows@),
{
    let mut out: Vec<ContentMatch> = Vec::new();
    let mut i: usize = 0;
    while i < rows.len()
        invariant
            i <= rows.len(),
            out@ == rows@.take(i as int).map_values(|r: SnippetRow| content_match_of(r)),
        decreases rows.len() - i,
    {
        let r = &rows[i];
        out.push(
            ContentMatch {
                path: r.path.clone(),
                title: copy_title(&r.title),
                snippet: r.snippet.clone(),
                matches: 1,
            },
        );
        i = i + 1;
        assert(out@ =~= rows@.take(i as int).map_values(|r: SnippetRow| content_match_of(r)));
    }
    assert(rows@.take(rows.len() as int) =~= rows@);
    if out.len() > MAX_RESULTS {
        out.truncate(MAX_RESULTS);
    }
    out
}

/// A read row as a match scored for the lower-cased query `query_lower`.
pub open spec fn scored_row(row: TitleRow, query_lower: Seq<char>) -> FileMatch {
    FileMatch {
        path: row.path,
        title: row.title,
        score: path_score(lower_of(row.path@), query_lower),
    }
}

/// The rows that could be read, in their order, scored for `query_lower`.
pub open spec fn scored_rows(rows: Seq<Option<TitleRow>>, query_lower: Seq<char>) -> Seq<
    FileMatch,
>
    decreases rows.len(),
{
    if rows.len() == 0 {
        Seq::empty()
    } else {
        let init = scored_rows(rows.drop_last(), query_lower);
        match rows.last() {
            Some(r) => init.push(scored_row(r, query_lower)),
            None => init,
        }
    }
}

proof fn lemma_scored_rows(rows: Seq<Option<TitleRow>>, query_lower: Seq<char>)
    ensures
        forall|k: int|
            0 <= k < scored_rows(rows, query_lower).len() ==> (#[trigger] scored_rows(
                rows,
                query_lower,
            )[k]).score == path_score(lower_of(scored_rows(rows, query_lower)[k].path@), query_lower),
    decreases rows.len(),
{
    if rows.len() > 0 {
        lemma_scored_rows(rows.drop_last(), query_lower);
    }
}

/// The title search results for the rows a query returned: the rows that could be
/// read, scored for the lower-cased query, best first, cut to the result limit.
pub fn title_results(rows: &Vec<Option<TitleRow>>, query_lower: &str) -> (r: Vec<FileMatch>)
    ensures
        r@ == ranked(scored_rows(rows@, query_lower@)),
{
    let mut scored: Vec<FileMatch> = Vec::new();
    let mut i: usize = 0;
    while i < rows.len()
        invariant
            i <= rows.len(),
            scored@ == scored_rows(rows@.take(i as int), query_lower@),
        decreases rows.len() - i,
    {
        assert(rows@.take(i + 1).drop_last() =~= rows@.take(i as int));
        assert(rows@.take(i + 1).last() == rows@[i as int]);
        match &rows[i] {
            Some(row) => {
                let path_lower = to_lowercase(row.path.as_str());
                let score = score_path(path_lower.as_str(), query_lower);
                scored.push(
                    FileMatch { path: row.path.clone(), title: copy_title(&row.title), score },
                );
            },
            None => {},
        }
        i = i + 1;
    }
    assert(rows@.take(rows.len() as int) =~= rows@);
    rank_matches(&scored)
}

/// The title search: stored documents whose lower-cased path or title holds the
/// lower-cased query, read literally, at most `MAX_RESULTS` of them.
pub const TITLE_SEARCH_SQL: &'static str = "SELECT path, title FROM files
     WHERE LOWER(path) LIKE ?1 ESCAPE '\\' OR LOWER(title) LIKE ?1 ESCAPE '\\'
     LIMIT 50";

/// Searches paths and titles for `query`, ignoring case. The results are the rows
/// that the store returns for the pattern `like_pattern(lower_of(query))`, scored and
/// ordered by `title_results`: those whose path holds the query score `PATH_SCORE`,
/// the others `TITLE_SCORE`, best first.
pub fn search_files(conn: &rusqlite::Connection, query: &str) -> (r: Result<
    Vec<FileMatch>,
    IndexError,
>)
    ensures
        r matches Err(e) ==> e is Connection,
        r matches Ok(v) ==> {
            &&& exists|rows: Seq<Option<TitleRow>>|
                v@ == ranked(#[trigger] scored_rows(rows, lower_of(query@)))
            &&& v.len() <= MAX_RESULTS
            &&& forall|k: int|
                0 <= k < v.len() ==> #[trigger] v[k].score == path_score(
                    lower_of(v[k].path@),
                    lower_of(query@),
                )
            &&& forall|i: int, j: int|
                0 <= i < j < v.len() ==> #[trigger] v[i].score >= #[trigger] v[j].score
        },
{
    let query_lower = to_lowercase(query);
    let pattern = like_pattern(query_lower.as_str());
    let rows = match query_title_rows(conn, TITLE_SEARCH_SQL, pattern.as_str()) {
        Ok(rows) => rows,
        Err(e) => {
            return Err(IndexError::Connection(e));
        },
    };
    let v = title_results(&rows, query_lower.as_str());
    proof {
        let ms = scored_rows(rows@, query_lower@);
        lemma_scored_rows(rows@, query_lower@);
        lemma_ranked(ms);
        assert forall|k: int| 0 <= k < v.len() implies #[trigger] v[k].score == path_score(
            lower_of(v[k].path@),
            lower_of(query@),
        ) by {
            assert(ms.contains(v@[k]));
            let j = choose|j: int| 0 <= j < ms.len() && ms[j] == v@[k];
            assert(ms[j].score == path_score(lower_of(ms[j].path@), query_lower@));
        }
        assert forall|i: int, j: int| 0 <= i < j < v.len() implies #[trigger] v[i].score
            >= #[trigger] v[j].score by {
            assert(ms.contains(v@[i]) && ms.contains(v@[j]));
            let a = choose|a: int| 0 <= a < ms.len() && ms[a] == v@[i];
            let b = choose|b: int| 0 <= b < ms.len() && ms[b] == v@[j];
            assert(ms[a].score == path_score(lower_of(ms[a].path@), query_lower@));
            assert(ms[b].score == path_score(lower_of(ms[b].path@), query_lower@));
        }
    }
    Ok(v)
}

/// The full-text search, with snippets that mark the matched terms.
pub const CONTENT_SEARCH_SQL: &'static str =
    "SELECT f.path, f.title, snippet(files_fts, 2, '<mark>', '</mark>', '...', 32) AS snippet
     FROM files_fts
     JOIN files f ON files_fts.rowid = f.id
     WHERE files_fts MATCH ?1
     LIMIT 50";

/// Searches the full text for `query`, in the full-text index's own syntax; each
/// result carries a snippet with the matches marked. A query that the index refuses
/// is an error.
pub fn search_content(conn: &rusqlite::Connection, query: &str) -> (r: Result<
    Vec<ContentMatch>,
    IndexError,
>)
    ensures
        r matches Err(e) ==> e is QuerySyntax,
        r matches Ok(v) ==> v.len() <= MAX_RESULTS && forall|k: int|
            0 <= k < v.len() ==> #[trigger] v[k].matches == 1,
{
    match query_snippet_rows(conn, CONTENT_SEARCH_SQL, query) {
        Ok(rows) => {
            let v = collect_content_matches(&rows);
            Ok(v)
        },
        Err(e) => Err(IndexError::QuerySyntax(e)),
    }
}

/// Index of the first `c` at or after `i`, or the length of `s`.
pub open spec fn index_of(s: Seq<char>, c: char, i: int) -> int
    decreases s.len() - i,
{
    if i < 0 || i >= s.len() {
        s.len() as int
    } else if s[i] == c {
        i
    } else {
        index_of(s, c, i + 1)
    }
}

/// `s` without a leading `[[`.
pub open spec fn strip_open(s: Seq<char>) -> Seq<char> {
    if s.len() >= 2 && s[0] == '[' && s[1] == '[' {
        s.subrange(2, s.len() as int)
    } else {
        s
    }
}

/// `s` without a trailing `]]`.
pub open spec fn strip_close(s: Seq<char>) -> Seq<char> {
    if s.len() >= 2 && s[s.len() - 2] == ']' && s[s.len() - 1] == ']' {
        s.subrange(0, s.len() - 2)
    } else {
        s
    }
}

/// The target that a wikilink names: the text before its first `|`, trimmed,
/// without its `[[` and `]]`, trimmed again.
pub open spec fn link_target_of(link: Seq<char>) -> Seq<char> {
    let head = link.subrange(0, index_of(link, '|', 0));
    trim(strip_close(strip_open(trim(head))))
}

proof fn lemma_index_of_at(s: Seq<char>, c: char, i: int, m: int)
    requires
        0 <= i <= m <= s.len(),
        forall|j: int| i <= j < m ==> s[j] != c,
        m == s.len() || s[m] == c,
    ensures
        index_of(s, c, i) == m,
    decreases m - i,
{
    if i < m {
        lemma_index_of_at(s, c, i + 1, m);
    }
}

/// The alias after the `|` of a wikilink never changes the target it names.
pub proof fn lemma_alias_ignored(target: Seq<char>, alias: Seq<char>)
    requires
        !target.contains('|'),
    ensures
        link_target_of(target + seq!['|'] + alias) == link_target_of(target),
{
    let s = target + seq!['|'] + alias;
    assert forall|j: int| 0 <= j < target.len() implies s[j] != '|' by {
        assert(s[j] == target[j]);
        if target[j] == '|' {
            assert(target.contains('|'));
        }
    }
    assert forall|j: int| 0 <= j < target.len() implies target[j] != '|' by {
        if target[j] == '|' {
            assert(target.contains('|'));
        }
    }
    assert(s[target.len() as int] == '|');
    lemma_index_of_at(s, '|', 0, target.len() as int);
    lemma_index_of_at(target, '|', 0, target.len() as int);
    assert(s.subrange(0, target.len() as int) =~= target);
    assert(target.subrange(0, target.len() as int) =~= target);
}

/// The target that `link` names, `[[Target]]` or `[[Target|Alias]]`, or bare.
pub fn link_target(link: &str) -> (r: String)
    ensures
        r@ == link_target_of(link@),
{
    let v = chars_of(link);
    let n = v.len();
    let mut k: usize = 0;
    while k < n && v[k] != '|'
        invariant
            k <= n,
            n == v.len(),
            v@ == link@,
            index_of(link@, '|', 0) == index_of(link@, '|', k as int),
        decreases n - k,
    {
        k = k + 1;
    }
    let ghost head = link@.subrange(0, index_of(link@, '|', 0));
    assert(head =~= v@.subrange(0, k as int));
    let a = skip_ws_forward(&v, 0, k);
    let b = skip_ws_backward(&v, a, k);
    assert(trim(head) == v@.subrange(a as int, b as int));
    let lo: usize = if b - a >= 2 && v[a] == '[' && v[a + 1] == '[' {
        a + 2
    } else {
        a
    };
    let hi: usize = if b - lo >= 2 && v[b - 2] == ']' && v[b - 1] == ']' {
        b - 2
    } else {
        b
    };
    assert(strip_open(v@.subrange(a as int, b as int)) =~= v@.subrange(lo as int, b as int));
    assert(strip_close(v@.subrange(lo as int, b as int)) =~= v@.subrange(lo as int, hi as int));
    let c = skip_ws_forward(&v, lo, hi);
    let d = skip_ws_backward(&v, c, hi);
    String::from_str(link.substring_char(c, d))
}

/// The path of the first row that could be read.
pub open spec fn first_path(rows: Seq<Option<TitleRow>>) -> Option<Seq<char>>
    decreases rows.len(),
{
    if rows.len() == 0 {
        None
    } else {
        match rows[0] {
            Some(r) => Some(r.path@),
            None => first_path(rows.drop_first()),
        }
    }
}

/// The path of the first row that could be read.
pub fn first_row_path(rows: &Vec<Option<TitleRow>>) -> (r: Option<String>)
    ensures
        r is Some == first_path(rows@) is Some,
        r is Some ==> r->0@ == first_path(rows@)->0,
{
    let mut i: usize = 0;
    assert(rows@.subrange(0, rows.len() as int) =~= rows@);
    while i < rows.len()
        invariant
            i <= rows.len(),
            first_path(rows@) == first_path(rows@.subrange(i as int, rows.len() as int)),
        decreases rows.len() - i,
    {
        assert(rows@.subrange(i as int, rows.len() as int).drop_first() =~= rows@.subrange(
            i + 1,
            rows.len() as int,
        ));
        match &rows[i] {
            Some(row) => {
                return Some(row.path.clone());
            },
            None => {},
        }
        i = i + 1;
    }
    None
}

/// The link decision: an exact title match wins, else a path that holds the target,
/// else nothing.
pub open spec fn chosen_link(exact: Seq<Option<TitleRow>>, by_path: Seq<Option<TitleRow>>) -> Option<
    Seq<char>,
> {
    match first_path(exact) {
        Some(p) => Some(p),
        None => first_path(by_path),
    }
}

/// What link resolution does after the exact title lookup.
#[derive(Debug, Clone, PartialEq, Eq)]
pub enum LinkStep {
    /// A document has the target as its title: this is its path.
    Found(String),
    /// None has: look up the paths that match this pattern.
    SearchPaths(String),
}

/// The step after the exact title lookup for `target` returned `exact`: its first
/// readable row wins; without one, the paths that hold `target` are looked up.
pub fn after_title_lookup(exact: &Vec<Option<TitleRow>>, target: &str) -> (s: LinkStep)
    ensures
        match s {
            LinkStep::Found(p) => first_path(exact@) == Some(p@),
            LinkStep::SearchPaths(pattern) => first_path(exact@) is None && pattern@
                == like_pattern_of(target@),
        },
{
    match first_row_path(exact) {
        Some(p) => LinkStep::Found(p),
        None => LinkStep::SearchPaths(like_pattern(target)),
    }
}

/// The resolved link for the rows of both lookups: `chosen_link` exactly.
pub fn pick_link(exact: &Vec<Option<TitleRow>>, by_path: &Vec<Option<TitleRow>>) -> (r: Option<
    String,
>)
    ensures
        opt_view(r) == chosen_link(exact@, by_path@),
{
    match first_row_path(exact) {
        Some(p) => Some(p),
        None => first_row_path(by_path),
    }
}

pub const EXACT_TITLE_SQL: &'static str = "SELECT path, title FROM files WHERE title = ?1 LIMIT 1";

pub const PATH_LIKE_SQL: &'static str =
    "SELECT path, title FROM files WHERE path LIKE ?1 ESCAPE '\\' LIMIT 1";

/// Resolves a wikilink to a stored path. The exact title lookup runs with
/// `link_target_of(link)`; where it returns no readable row, the path lookup runs
/// with `like_pattern_of` of that target. The result is `chosen_link` of what the two
/// lookups returned: an exact title match wins, else a path that holds the target,
/// else `None`.
pub fn resolve_wikilink(conn: &rusqlite::Connection, link: &str) -> (r: Result<
    Option<String>,
    IndexError,
>)
    ensures
        r matches Err(e) ==> e is Connection,
        r matches Ok(p) ==> exists|exact: Seq<Option<TitleRow>>, by_path: Seq<Option<TitleRow>>|
            opt_view(p) == #[trigger] chosen_link(exact, by_path),
{
    let target = link_target(link);
    let exact = match query_title_rows(conn, EXACT_TITLE_SQL, target.as_str()) {
        Ok(rows) => rows,
        Err(e) => {
            return Err(IndexError::Connection(e));
        },
    };
    match after_title_lookup(&exact, target.as_str()) {
        LinkStep::Found(p) => {
            assert(opt_view(Some(p)) == chosen_link(exact@, Seq::empty()));
            Ok(Some(p))
        },
        LinkStep::SearchPaths(pattern) => {
            let by_path = match query_title_rows(conn, PATH_LIKE_SQL, pattern.as_str()) {
                Ok(rows) => rows,
                Err(e) => {
                    return Err(IndexError::Connection(e));
                },
            };
            let r = first_row_path(&by_path);
            assert(opt_view(r) == chosen_link(exact@, by_path@));
            Ok(r)
        },
    }
}

} // verus!
