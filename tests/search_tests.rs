use notes_index::query::{
    after_title_lookup, like_pattern, link_target, pick_link, rank_matches, resolve_wikilink,
    score_path, search_content, search_files, title_results, FileMatch, LinkStep, TitleRow,
    MAX_RESULTS,
};
use notes_index::store::{
    create_schema, index_document, next_tx_action, write_document, DocumentRecord, IndexError,
    IndexService, TxAction, WriteStep,
};

fn memory_store() -> rusqlite::Connection {
    let service = IndexService::new(":memory:".to_string());
    let conn = service.get_connection().unwrap();
    create_schema(&conn).unwrap();
    conn
}

fn add(conn: &rusqlite::Connection, path: &str, content: &str) {
    index_document(conn, path.to_string(), content.to_string(), 10, 5).unwrap();
}

fn count(conn: &rusqlite::Connection, sql: &str) -> i64 {
    conn.query_row(sql, [], |row| row.get(0)).unwrap()
}

#[test]
fn initialize_creates_schema() {
    let service = IndexService::new(":memory:".to_string());
    assert!(service.initialize().is_ok());
    assert_eq!(service.path(), ":memory:");
}

#[test]
fn reindexing_keeps_one_row_and_one_entry() {
    let conn = memory_store();
    add(&conn, "/n/a.md", "alpha text");
    add(&conn, "/n/a.md", "alpha text");
    assert_eq!(count(&conn, "SELECT COUNT(*) FROM files WHERE path = '/n/a.md'"), 1);
    assert_eq!(count(&conn, "SELECT COUNT(*) FROM files_fts WHERE files_fts MATCH 'alpha'"), 1);
    let hits = search_content(&conn, "alpha").unwrap();
    assert_eq!(hits.len(), 1);
}

#[test]
fn reindexing_replaces_text() {
    let conn = memory_store();
    add(&conn, "/n/a.md", "first version");
    add(&conn, "/n/a.md", "second version");
    assert_eq!(search_content(&conn, "first").unwrap().len(), 0);
    assert_eq!(search_content(&conn, "second").unwrap().len(), 1);
    assert_eq!(count(&conn, "SELECT COUNT(*) FROM files"), 1);
}

#[test]
fn failed_write_leaves_store_unchanged() {
    let conn = memory_store();
    add(&conn, "/n/a.md", "earlier words");
    conn.execute_batch(
        "CREATE TRIGGER refuse BEFORE UPDATE ON files BEGIN SELECT RAISE(ABORT, 'refused'); END;",
    )
    .unwrap();
    let doc = DocumentRecord::new("/n/a.md".to_string(), "changed words".to_string(), 1, 1);
    let r = write_document(&conn, &doc);
    assert!(matches!(r, Err(IndexError::DocumentIndex(_))));
    assert_eq!(search_content(&conn, "earlier").unwrap().len(), 1);
    assert_eq!(search_content(&conn, "changed").unwrap().len(), 0);
    assert_eq!(count(&conn, "SELECT COUNT(*) FROM files"), 1);
    // the store still accepts writes afterwards
    add(&conn, "/n/b.md", "more words");
    assert_eq!(count(&conn, "SELECT COUNT(*) FROM files"), 2);
}

#[test]
fn path_match_outranks_title_match() {
    let conn = memory_store();
    add(&conn, "b/other.md", "---\ntitle: Query Term\n---\n");
    add(&conn, "a/query-term.md", "---\ntitle: Other\n---\n");
    let r = search_files(&conn, "query").unwrap();
    assert_eq!(r.len(), 2);
    assert_eq!(r[0].path, "a/query-term.md");
    assert_eq!(r[0].score, 100);
    assert_eq!(r[1].path, "b/other.md");
    assert_eq!(r[1].title, Some("Query Term".to_string()));
    assert_eq!(r[1].score, 50);
}

#[test]
fn title_search_ignores_case() {
    let conn = memory_store();
    add(&conn, "x/Notes.md", "");
    let r = search_files(&conn, "NOTES").unwrap();
    assert_eq!(r.len(), 1);
    assert_eq!(r[0].score, 100);
}

#[test]
fn searches_return_at_most_fifty() {
    let conn = memory_store();
    for i in 0..60 {
        add(&conn, &format!("/n/common{}.md", i), "shared word");
    }
    assert_eq!(search_files(&conn, "common").unwrap().len(), 50);
    assert_eq!(search_content(&conn, "shared").unwrap().len(), 50);
    assert_eq!(MAX_RESULTS, 50);
}

#[test]
fn content_search_marks_matches() {
    let conn = memory_store();
    add(&conn, "/n/a.md", "the quick brown fox");
    let r = search_content(&conn, "quick").unwrap();
    assert_eq!(r.len(), 1);
    assert!(r[0].snippet.contains("<mark>quick</mark>"));
    assert_eq!(r[0].matches, 1);
    assert_eq!(r[0].title, Some("a".to_string()));
}

#[test]
fn malformed_full_text_query_is_an_error() {
    let conn = memory_store();
    add(&conn, "/n/a.md", "text");
    let r = search_content(&conn, "\"unbalanced");
    assert!(matches!(r, Err(IndexError::QuerySyntax(_))));
}

#[test]
fn wikilink_resolves_by_exact_title() {
    let conn = memory_store();
    add(&conn, "/n/2024-01-01.md", "---\ntitle: Daily Note\n---\n");
    let r = resolve_wikilink(&conn, "[[Daily Note|Today]]").unwrap();
    assert_eq!(r, Some("/n/2024-01-01.md".to_string()));
    let none = resolve_wikilink(&conn, "[[NonExistentExactTitle]]").unwrap();
    assert_eq!(none, None);
}

#[test]
fn wikilink_falls_back_to_path() {
    let conn = memory_store();
    add(&conn, "/n/projects/roadmap.md", "---\ntitle: Plans\n---\n");
    let r = resolve_wikilink(&conn, "roadmap").unwrap();
    assert_eq!(r, Some("/n/projects/roadmap.md".to_string()));
}

#[test]
fn link_target_strips_brackets_and_alias() {
    assert_eq!(link_target("[[Daily Note|Today]]"), "Daily Note");
    assert_eq!(link_target("[[ Spaced ]]"), "Spaced");
    assert_eq!(link_target("Plain"), "Plain");
    assert_eq!(link_target("a|b|c"), "a");
    assert_eq!(link_target("[[]]"), "");
    assert_eq!(link_target("[[x]]|y"), "x");
    assert_eq!(link_target("  [[Note]]  "), "Note");
}

fn row(path: &str, title: Option<&str>) -> Option<TitleRow> {
    Some(TitleRow { path: path.to_string(), title: title.map(|t| t.to_string()) })
}

#[test]
fn like_pattern_escapes_wildcards() {
    assert_eq!(like_pattern("abc"), "%abc%");
    assert_eq!(like_pattern("50%_off\\"), "%50\\%\\_off\\\\%");
    assert_eq!(like_pattern(""), "%%");
}

#[test]
fn wildcards_in_queries_match_literally() {
    let conn = memory_store();
    add(&conn, "/n/plain.md", "");
    add(&conn, "/n/a_b.md", "");
    add(&conn, "/n/axb.md", "");
    assert_eq!(search_files(&conn, "%").unwrap().len(), 0);
    let r = search_files(&conn, "a_b").unwrap();
    assert_eq!(r.len(), 1);
    assert_eq!(r[0].path, "/n/a_b.md");
    assert_eq!(resolve_wikilink(&conn, "x_b").unwrap(), None);
}

#[test]
fn title_results_score_and_rank_rows() {
    let rows = vec![
        row("b/other.md", Some("Query Term")),
        None,
        row("a/Query-Term.md", Some("Other")),
    ];
    let r = title_results(&rows, "query");
    assert_eq!(r.len(), 2);
    assert_eq!(r[0].path, "a/Query-Term.md");
    assert_eq!(r[0].score, 100);
    assert_eq!(r[1].path, "b/other.md");
    assert_eq!(r[1].score, 50);
}

#[test]
fn link_steps_prefer_exact_title() {
    let exact = vec![None, row("/n/daily.md", Some("Daily Note"))];
    assert_eq!(after_title_lookup(&exact, "Daily Note"), LinkStep::Found("/n/daily.md".to_string()));
    let none: Vec<Option<TitleRow>> = vec![];
    assert_eq!(after_title_lookup(&none, "a%b"), LinkStep::SearchPaths("%a\\%b%".to_string()));
    let by_path = vec![row("/n/other.md", None)];
    assert_eq!(pick_link(&exact, &by_path), Some("/n/daily.md".to_string()));
    assert_eq!(pick_link(&none, &by_path), Some("/n/other.md".to_string()));
    assert_eq!(pick_link(&none, &none), None);
}

#[test]
fn transaction_actions_follow_the_steps() {
    assert_eq!(next_tx_action(0, true), TxAction::Run(WriteStep::ClearFullText));
    assert_eq!(next_tx_action(1, true), TxAction::Run(WriteStep::UpsertDocument));
    assert_eq!(next_tx_action(2, true), TxAction::Run(WriteStep::InsertFullText));
    assert_eq!(next_tx_action(3, true), TxAction::Commit);
    assert_eq!(next_tx_action(2, false), TxAction::Rollback);
    assert_eq!(next_tx_action(3, false), TxAction::Rollback);
}

#[test]
fn score_path_two_tiers() {
    assert_eq!(score_path("a/query-term.md", "query"), 100);
    assert_eq!(score_path("b/other.md", "query"), 50);
    assert_eq!(score_path("anything", ""), 100);
}

#[test]
fn rank_keeps_tier_order() {
    let m = |p: &str, s: u32| FileMatch { path: p.to_string(), title: None, score: s };
    let input = vec![m("1", 50), m("2", 100), m("3", 50), m("4", 100)];
    let r = rank_matches(&input);
    let paths: Vec<&str> = r.iter().map(|x| x.path.as_str()).collect();
    assert_eq!(paths, vec!["2", "4", "1", "3"]);
    let many: Vec<FileMatch> = (0..70).map(|i| m(&i.to_string(), 50)).collect();
    assert_eq!(rank_matches(&many).len(), 50);
}
