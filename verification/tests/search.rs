use fuzzy_matcher::skim::SkimMatcherV2;
use fuzzy_matcher::FuzzyMatcher;
use ntdocs::model::{CategorizedEntry, Category, Entry};
use ntdocs::search::{best_index, has_match, rank, resolve_best, score_names, Hit, RANK_LIMIT};

fn skim(choice: &str, pattern: &str) -> Option<i64> {
    SkimMatcherV2::default().fuzzy_match(choice, pattern)
}

fn define(name: &str, value: &str) -> CategorizedEntry {
    CategorizedEntry::new(
        Category::Win32,
        Entry::Define { name: name.to_string(), value: value.to_string() },
    )
}

fn catalog(all: &[&str]) -> Vec<CategorizedEntry> {
    all.iter().map(|n| define(n, "1")).collect()
}

fn hit_names(hits: &[Hit]) -> Vec<String> {
    hits.iter().map(|h| h.entry.name().to_string()).collect()
}

fn hit_positions(hits: &[Hit]) -> Vec<usize> {
    hits.iter().map(|h| h.index).collect()
}

#[test]
fn rank_limit_is_fifty() {
    assert_eq!(RANK_LIMIT, 50);
}

#[test]
fn has_match_finds_a_score() {
    assert!(!has_match(&vec![]));
    assert!(!has_match(&vec![None, None]));
    assert!(has_match(&vec![None, Some(-3)]));
}

#[test]
fn best_index_is_the_position_of_the_greatest() {
    assert_eq!(best_index(&vec![Some(3), None, Some(7), Some(5)]), Some(2));
    assert_eq!(best_index(&vec![None, Some(-3)]), Some(1));
    assert_eq!(best_index(&vec![]), None);
    assert_eq!(best_index(&vec![None, None]), None);
}

#[test]
fn best_index_takes_the_last_of_equal_scores() {
    assert_eq!(best_index(&vec![Some(7), None, Some(7), Some(5)]), Some(2));
    assert_eq!(best_index(&vec![Some(1), Some(1), Some(1)]), Some(2));
}

#[test]
fn best_index_agrees_with_max_by_key() {
    let scores = vec![Some(4), Some(9), None, Some(9), Some(2), None, Some(9), Some(0)];
    let expected = scores
        .iter()
        .enumerate()
        .filter_map(|(i, s)| s.map(|s| (i, s)))
        .max_by_key(|(_, s)| *s)
        .map(|(i, _)| i);
    assert_eq!(best_index(&scores), expected);
}

#[test]
fn score_names_scores_the_names_as_they_are() {
    let all = catalog(&["MAX_PATH", "NtClose", "MAXIMUM"]);
    assert_eq!(
        score_names(&all, "MAX"),
        vec![skim("MAX_PATH", "MAX"), skim("NtClose", "MAX"), skim("MAXIMUM", "MAX")]
    );
    assert_eq!(score_names(&all, "MAX")[1], None);
}

#[test]
fn score_names_lowercases_only_where_nothing_matches() {
    let all = catalog(&["max_path", "NtClose"]);
    assert_eq!(skim("max_path", "MAX"), None);
    assert_eq!(skim("NtClose", "MAX"), None);
    assert_eq!(score_names(&all, "MAX"), vec![skim("max_path", "max"), skim("ntclose", "max")]);
    assert!(score_names(&all, "MAX")[0].is_some());
}

#[test]
fn resolve_best_finds_a_define_by_subsequence() {
    let all = vec![define("MAX_PATH", "260")];
    let hit = resolve_best(&all, "MAXPATH").unwrap();
    assert_eq!(hit.index, 0);
    assert_eq!(hit.entry, &all[0]);
    assert_eq!(Some(hit.score), skim("MAX_PATH", "MAXPATH"));
    assert_eq!(hit.entry.raw_definition(&all), "#define MAX_PATH 260");
}

#[test]
fn resolve_best_resolves_a_record_by_its_own_name() {
    let all = catalog(&["NtClose", "NtCreateFile", "MAX_PATH", "ZwOpenKey", "DWORD"]);
    for (i, record) in all.iter().enumerate() {
        let own = skim(record.name(), record.name()).unwrap();
        for (j, other) in all.iter().enumerate() {
            if j != i {
                assert!(skim(other.name(), record.name()).map_or(true, |s| s < own));
            }
        }
        let hit = resolve_best(&all, record.name()).unwrap();
        assert_eq!(hit.index, i);
        assert_eq!(hit.entry, record);
        assert_eq!(hit.score, own);
    }
}

#[test]
fn resolve_best_by_own_name_where_a_longer_name_scores_the_same() {
    let all = catalog(&["NtClose", "NtCreateFile", "NtCloseObjectAuditAlarm"]);
    assert_eq!(skim("NtClose", "NtClose"), skim("NtCloseObjectAuditAlarm", "NtClose"));
    let hit = resolve_best(&all, "NtClose").unwrap();
    assert_eq!(hit.index, 2);
}

#[test]
fn resolve_best_takes_the_highest_score() {
    let all = catalog(&["xMxAxX", "MAX", "MAXIMUM_LENGTH"]);
    let scores: Vec<Option<i64>> = all.iter().map(|e| skim(e.name(), "MAX")).collect();
    let top = scores.iter().copied().max().unwrap();
    let hit = resolve_best(&all, "MAX").unwrap();
    assert_eq!(Some(hit.score), top);
    assert_eq!(scores[hit.index], top);
}

#[test]
fn resolve_best_takes_the_last_of_equal_names() {
    let all = vec![define("SAME", "1"), define("OTHER", "2"), define("SAME", "3")];
    let hit = resolve_best(&all, "SAME").unwrap();
    assert_eq!(hit.index, 2);
    assert_eq!(hit.entry.raw_definition(&all), "#define SAME 3");
}

#[test]
fn resolve_best_falls_back_to_lowercase() {
    let all = catalog(&["ntclose", "max_path"]);
    assert_eq!(skim("max_path", "MAX_PATH"), None);
    let hit = resolve_best(&all, "MAX_PATH").unwrap();
    assert_eq!(hit.index, 1);
    assert_eq!(Some(hit.score), skim("max_path", "max_path"));
}

#[test]
fn resolve_best_without_a_match() {
    let all = catalog(&["NtClose", "MAX_PATH"]);
    assert!(resolve_best(&all, "zzzz").is_none());
    assert!(resolve_best(&[], "NtClose").is_none());
}

#[test]
fn resolve_best_of_the_empty_query_is_the_last_record() {
    let all = catalog(&["b", "a", "c"]);
    let hit = resolve_best(&all, "").unwrap();
    assert_eq!(hit.index, 2);
    assert_eq!(hit.score, 0);
}

#[test]
fn rank_of_the_empty_query_is_the_catalog_sorted_by_name() {
    let all = catalog(&["NtClose", "MAX_PATH", "_FOO", "DWORD", "abc", "NtClose"]);
    let hits = rank(&all, "");
    assert_eq!(hit_names(&hits), vec!["DWORD", "MAX_PATH", "NtClose", "NtClose", "_FOO", "abc"]);
    assert_eq!(hit_positions(&hits), vec![3, 1, 0, 5, 2, 4]);
    assert!(hits.iter().all(|h| h.score == 0));
    assert!(hits.iter().all(|h| h.entry == &all[h.index]));
}

#[test]
fn rank_of_the_empty_query_is_capped_at_fifty() {
    let names: Vec<String> = (0..120).map(|i| format!("N{:03}", (i * 37) % 120)).collect();
    let all: Vec<CategorizedEntry> = names.iter().map(|n| define(n, "1")).collect();
    let hits = rank(&all, "");
    assert_eq!(hits.len(), 50);
    let expected: Vec<String> = (0..50).map(|i| format!("N{:03}", i)).collect();
    assert_eq!(hit_names(&hits), expected);
}

#[test]
fn rank_never_lists_more_than_fifty() {
    let names: Vec<String> = (0..80).map(|i| format!("NtQuery{}", i)).collect();
    let all: Vec<CategorizedEntry> = names.iter().map(|n| define(n, "1")).collect();
    for query in ["", "N", "Nt", "Query", "q", "7", "NTQUERY"] {
        assert!(rank(&all, query).len() <= 50);
    }
    assert_eq!(rank(&all, "Nt").len(), 50);
    assert_eq!(rank(&all, "7").len(), 17);
}

#[test]
fn rank_on_an_empty_catalog_is_empty() {
    assert!(rank(&[], "anything").is_empty());
    assert!(rank(&[], "").is_empty());
}

#[test]
fn rank_lists_matches_by_descending_score() {
    let all = catalog(&["xMxAxX", "NtClose", "MAX", "MAXIMUM_LENGTH", "MAX_PATH"]);
    let hits = rank(&all, "MAX");
    let mut expected: Vec<(usize, i64)> = all
        .iter()
        .enumerate()
        .filter_map(|(i, e)| skim(e.name(), "MAX").map(|s| (i, s)))
        .collect();
    expected.sort_by(|a, b| b.1.cmp(&a.1));
    assert_eq!(expected.len(), 4);
    let got: Vec<(usize, i64)> = hits.iter().map(|h| (h.index, h.score)).collect();
    assert_eq!(got, expected);
    assert!(hits.iter().all(|h| h.entry == &all[h.index]));
    assert!(hits.windows(2).all(|w| w[0].score >= w[1].score));
}

#[test]
fn rank_keeps_equal_scores_in_catalog_order() {
    let all = vec![define("SAME", "1"), define("zzz", "2"), define("SAME", "3"), define("SAME", "4")];
    let hits = rank(&all, "SAME");
    assert_eq!(hit_positions(&hits), vec![0, 2, 3]);
}

#[test]
fn rank_without_a_match_is_empty() {
    let all = catalog(&["NtClose", "MAX_PATH"]);
    assert!(rank(&all, "zzzz").is_empty());
}

#[test]
fn rank_uses_the_exact_pass_where_it_matches_anything() {
    let all = catalog(&["FooBar", "foobar", "fxb"]);
    assert!(skim("FooBar", "FB").is_some());
    assert_eq!(skim("foobar", "FB"), None);
    assert!(skim("foobar", "fb").is_some());
    let hits = rank(&all, "FB");
    assert_eq!(hit_positions(&hits), vec![0]);
    assert_eq!(Some(hits[0].score), skim("FooBar", "FB"));
    assert_ne!(skim("FooBar", "FB"), skim("foobar", "fb"));
}

#[test]
fn rank_falls_back_to_lowercase_for_the_whole_catalog() {
    let all = catalog(&["foobar", "fxb", "NtClose"]);
    assert_eq!(skim("foobar", "FB"), None);
    assert_eq!(skim("fxb", "FB"), None);
    let hits = rank(&all, "FB");
    let mut expected: Vec<(usize, i64)> = all
        .iter()
        .enumerate()
        .filter_map(|(i, e)| skim(&e.name().to_lowercase(), "fb").map(|s| (i, s)))
        .collect();
    expected.sort_by(|a, b| b.1.cmp(&a.1));
    assert_eq!(expected.len(), 2);
    let got: Vec<(usize, i64)> = hits.iter().map(|h| (h.index, h.score)).collect();
    assert_eq!(got, expected);
}

#[test]
fn rank_is_the_same_on_every_call() {
    let all = catalog(&["NtClose", "NtCreateFile", "NtOpenFile", "MAX_PATH", "NtClose"]);
    let first: Vec<(usize, i64)> = rank(&all, "NtC").iter().map(|h| (h.index, h.score)).collect();
    let second: Vec<(usize, i64)> = rank(&all, "NtC").iter().map(|h| (h.index, h.score)).collect();
    assert_eq!(first, second);
}
