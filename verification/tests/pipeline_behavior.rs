//! Behavior of scorers, stages, and the pipeline executor on concrete
//! values.

use filerank::loaders::{ContentExt, ContentPath, ContentTitle, FileData, LoaderKind};
use filerank::pipeline::{
    active_stages, run_pipeline, run_stage, run_stage_with_contents, sort_entries_desc,
    ScoredEntry,
};
use filerank::scorers::{score_kind, ContentFilter, Has, Hasnt, Is, More, Not, Pass, ScorerKind};
use filerank::stage::{ScorerSpec, Stage};
use filerank::stats::{AppStats, RunStats};

fn spec(kind: ScorerKind, target: &str) -> ScorerSpec {
    ScorerSpec {
        kind,
        target: String::from(target),
    }
}

fn stage(loader: LoaderKind, scorers: Vec<ScorerSpec>, insensitive: bool) -> Stage {
    Stage {
        loader,
        scorers,
        insensitive,
    }
}

fn entry(path: &str) -> FileData {
    FileData::new(path.as_bytes().to_vec())
}

#[test]
fn is_survives_exact_content_only() {
    let st = stage(LoaderKind::Title, vec![spec(ScorerKind::Is, "abc")], false);
    let hit = st.evaluate(&b"abc".to_vec());
    assert!(hit.survived);
    assert_eq!(hit.score, 1);
    let near = st.evaluate(&b"abd".to_vec());
    assert!(!near.survived);
    let longer = st.evaluate(&b"abcx".to_vec());
    assert!(!longer.survived);
    let cased = st.evaluate(&b"ABC".to_vec());
    assert!(!cased.survived);
}

#[test]
fn more_scores_one_plus_occurrences() {
    let content = b"foo foo bar".to_vec();
    let target = b"foo".to_vec();
    assert_eq!(score_kind(ScorerKind::More, &content, &target), 3);
    let twice = b"foo foo bar foo".to_vec();
    assert_eq!(score_kind(ScorerKind::More, &twice, &target), 4);
    let none = b"bar".to_vec();
    assert_eq!(score_kind(ScorerKind::More, &none, &target), 1);
    let overlapping = b"aaa".to_vec();
    assert_eq!(score_kind(ScorerKind::More, &overlapping, &b"aa".to_vec()), 2);
}

#[test]
fn scorer_structs_match_their_kinds() {
    let content = b"hello world".to_vec();
    assert_eq!(Is {}.score(&content, &b"hello world".to_vec()), 1);
    assert_eq!(Is {}.score(&content, &b"hello".to_vec()), 0);
    assert_eq!(Not {}.score(&content, &b"hello".to_vec()), 1);
    assert_eq!(Not {}.score(&content, &b"hello world".to_vec()), 0);
    assert_eq!(Has {}.score(&content, &b"o w".to_vec()), 1);
    assert_eq!(Has {}.score(&content, &b"xyz".to_vec()), 0);
    assert_eq!(Hasnt {}.score(&content, &b"xyz".to_vec()), 1);
    assert_eq!(Hasnt {}.score(&content, &b"o w".to_vec()), 0);
    assert_eq!(More {}.score(&content, &b"o".to_vec()), 3);
    assert_eq!(Pass {}.score(&content, &b"anything".to_vec()), 1);
}

#[test]
fn empty_target_passes_has_and_scores_one_on_more() {
    let content = b"abc".to_vec();
    let empty = Vec::new();
    assert_eq!(score_kind(ScorerKind::Has, &content, &empty), 1);
    assert_eq!(score_kind(ScorerKind::Hasnt, &content, &empty), 0);
    assert_eq!(score_kind(ScorerKind::More, &content, &empty), 1);
}

#[test]
fn pass_only_stage_is_dropped_from_active_pipeline() {
    let pass_only = stage(LoaderKind::Title, vec![spec(ScorerKind::Pass, "")], true);
    assert!(!pass_only.is_valid());
    let real = stage(LoaderKind::Title, vec![spec(ScorerKind::Has, "x")], false);
    assert!(real.is_valid());
    let active = active_stages(vec![
        stage(LoaderKind::Title, vec![spec(ScorerKind::Pass, "")], true),
        stage(LoaderKind::Title, vec![spec(ScorerKind::Has, "x")], false),
    ]);
    assert_eq!(active.len(), 1);
    assert!(matches!(active[0].scorers[0].kind, ScorerKind::Has));
}

#[test]
fn zero_entries_give_empty_result_without_error() {
    let stages = vec![
        stage(LoaderKind::Title, vec![spec(ScorerKind::Has, "a")], false),
        stage(LoaderKind::Ext, vec![spec(ScorerKind::Is, "txt")], false),
    ];
    let mut stats = AppStats::new();
    let out = run_pipeline(stages, Vec::new(), &mut stats);
    assert!(out.is_empty());
    assert_eq!(stats.runs.len(), 2);
}

#[test]
fn zero_entries_give_empty_result_for_one_stage() {
    let st = stage(LoaderKind::Text, vec![spec(ScorerKind::Has, "a")], false);
    let mut rs = RunStats::new(&st);
    let out = run_stage_with_contents(&st, Vec::new(), Vec::new(), &mut rs);
    assert!(out.is_empty());
}

#[test]
fn case_insensitive_stage_folds_content_and_target() {
    let insensitive = stage(LoaderKind::Title, vec![spec(ScorerKind::Is, "abc")], true);
    let outcome = insensitive.evaluate(&b"ABC".to_vec());
    assert!(outcome.survived);
    let sensitive = stage(LoaderKind::Title, vec![spec(ScorerKind::Is, "abc")], false);
    let outcome = sensitive.evaluate(&b"ABC".to_vec());
    assert!(!outcome.survived);
}

#[test]
fn two_stage_pipeline_ranks_and_narrows() {
    let entries = vec![entry("a.txt"), entry("b.txt"), entry("c.log")];
    let stage1 = stage(LoaderKind::Ext, vec![spec(ScorerKind::Is, "txt")], false);
    let mut rs1 = RunStats::new(&stage1);
    let survivors = run_stage(&stage1, entries, &mut rs1);
    assert_eq!(survivors.len(), 2);

    let stage2 = stage(LoaderKind::Text, vec![spec(ScorerKind::More, "foo")], false);
    let mut inputs = Vec::new();
    let mut contents = Vec::new();
    for se in survivors {
        let text: &[u8] = if se.entry.path() == &b"a.txt".to_vec() {
            b"foo foo bar"
        } else {
            b"bar"
        };
        inputs.push(se.entry);
        contents.push(Some(text.to_vec()));
    }
    let mut rs2 = RunStats::new(&stage2);
    let out = run_stage_with_contents(&stage2, inputs, contents, &mut rs2);
    assert_eq!(out.len(), 2);
    assert_eq!(out[0].score, 3);
    assert_eq!(out[0].entry.path(), &b"a.txt".to_vec());
    assert_eq!(out[1].score, 1);
    assert_eq!(out[1].entry.path(), &b"b.txt".to_vec());
}

#[test]
fn failed_loads_drop_the_entry_and_continue() {
    let st = stage(LoaderKind::Text, vec![spec(ScorerKind::More, "a")], false);
    let entries = vec![entry("one"), entry("two"), entry("three")];
    let contents = vec![
        Some(b"aa".to_vec()),
        None,
        Some(b"a".to_vec()),
    ];
    let mut rs = RunStats::new(&st);
    let out = run_stage_with_contents(&st, entries, contents, &mut rs);
    assert_eq!(out.len(), 2);
    assert_eq!(out[0].score, 3);
    assert_eq!(out[0].entry.path(), &b"one".to_vec());
    assert_eq!(out[1].score, 2);
    assert_eq!(out[1].entry.path(), &b"three".to_vec());
}

#[test]
fn first_failing_scorer_short_circuits_the_chain() {
    let st = stage(
        LoaderKind::Title,
        vec![spec(ScorerKind::Has, "x"), spec(ScorerKind::More, "hit")],
        false,
    );
    let mut rs = RunStats::new(&st);
    let outcome = st.evaluate_with_stats(&b"nothing here".to_vec(), &mut rs);
    assert!(!outcome.survived);
    assert_eq!(outcome.evaluated, 1);
    let rows = rs.report();
    assert_eq!(rows.len(), 2);
    assert!(rows[0].executed);
    assert!(!rows[1].executed);
    assert_eq!(rows[1].key, String::from("More(hit)"));
}

#[test]
fn all_passing_scorers_are_evaluated_and_summed() {
    let st = stage(
        LoaderKind::Title,
        vec![spec(ScorerKind::Has, "o"), spec(ScorerKind::More, "o")],
        false,
    );
    let outcome = st.evaluate(&b"foo of others".to_vec());
    assert!(outcome.survived);
    assert_eq!(outcome.evaluated, 2);
    assert_eq!(outcome.score, 1 + 1 + 4);
}

#[test]
fn sorting_is_by_descending_score_only() {
    let items = vec![
        ScoredEntry { score: 1, entry: entry("low") },
        ScoredEntry { score: 3, entry: entry("high") },
        ScoredEntry { score: 2, entry: entry("mid") },
    ];
    let sorted = sort_entries_desc(items);
    let scores: Vec<u64> = sorted.iter().map(|se| se.score).collect();
    assert_eq!(scores, vec![3, 2, 1]);

    let tied = vec![
        ScoredEntry { score: 2, entry: entry("first") },
        ScoredEntry { score: 2, entry: entry("second") },
        ScoredEntry { score: 5, entry: entry("top") },
    ];
    let sorted = sort_entries_desc(tied);
    assert_eq!(sorted[0].entry.path(), &b"top".to_vec());
    assert_eq!(sorted[1].score, 2);
    assert_eq!(sorted[2].score, 2);
    let rest: Vec<&Vec<u8>> = sorted[1..].iter().map(|se| se.entry.path()).collect();
    assert!(rest.contains(&&b"first".to_vec()));
    assert!(rest.contains(&&b"second".to_vec()));
}

#[test]
fn empty_stage_list_runs_the_default_pass_through() {
    let mut stats = AppStats::new();
    let out = run_pipeline(Vec::new(), vec![entry("a"), entry("b")], &mut stats);
    assert_eq!(out.len(), 2);
    assert!(out.iter().all(|se| se.score == 1));
}

#[test]
fn pipeline_of_invalid_stages_also_falls_back_to_default() {
    let stages = vec![stage(LoaderKind::Title, vec![spec(ScorerKind::Pass, "")], true)];
    let mut stats = AppStats::new();
    let out = run_pipeline(stages, vec![entry("a")], &mut stats);
    assert_eq!(out.len(), 1);
    assert_eq!(out[0].score, 1);
}

#[test]
fn content_filters_decide_like_their_scorers() {
    let content = b"banana".to_vec();
    assert!(Is {}.filter(&content, &b"banana".to_vec()));
    assert!(!Is {}.filter(&content, &b"banan".to_vec()));
    assert!(Not {}.filter(&content, &b"apple".to_vec()));
    assert!(Has {}.filter(&content, &b"nan".to_vec()));
    assert!(Hasnt {}.filter(&content, &b"xyz".to_vec()));
    assert!(!Hasnt {}.filter(&content, &b"ana".to_vec()));
}

#[test]
fn pure_pipeline_narrows_and_ranks_across_stages() {
    let entries = vec![entry("notes.txt"), entry("data.txt"), entry("image.png")];
    let stages = vec![
        stage(LoaderKind::Ext, vec![spec(ScorerKind::Is, "txt")], false),
        stage(LoaderKind::Title, vec![spec(ScorerKind::More, "a")], false),
    ];
    let mut stats = AppStats::new();
    let out = run_pipeline(stages, entries, &mut stats);
    // data.txt has two letters a in its title, notes.txt has none.
    assert_eq!(out.len(), 2);
    assert_eq!(out[0].entry.path(), &b"data.txt".to_vec());
    assert_eq!(out[0].score, 3);
    assert_eq!(out[1].entry.path(), &b"notes.txt".to_vec());
    assert_eq!(out[1].score, 1);
    assert_eq!(stats.runs.len(), 2);
}

#[test]
fn title_path_and_ext_loaders_extract_from_the_path() {
    let e = entry("dir/sub/name.tar.gz");
    assert_eq!(ContentTitle::new().load_content(&e), b"name.tar.gz".to_vec());
    assert_eq!(ContentPath::new().load_content(&e), b"dir/sub/name.tar.gz".to_vec());
    assert_eq!(ContentExt::new().load_content(&e), b"gz".to_vec());
    let bare = entry("dir/readme");
    assert_eq!(ContentExt::new().load_content(&bare), Vec::<u8>::new());
    assert_eq!(ContentTitle::new().load_content(&bare), b"readme".to_vec());
    let dotfile = entry("home/.bashrc");
    assert_eq!(ContentExt::new().load_content(&dotfile), b"bashrc".to_vec());
}
