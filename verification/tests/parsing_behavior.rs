//! Behavior of argument parsing, statistics, and metadata scoring on
//! concrete values.

use filerank::args::{get_content_runs, parse_args, Arg, ConfigError};
use filerank::bytes::{contains_bytes, count_bytes, fold_bytes};
use filerank::loaders::{parse, path_rel, FileData, LoaderKind};
use filerank::metadata::{
    metadata_search, permission_string, DirScoreSpec, FileMeta, MetadataScorer,
    PermissionScoreSpec,
};
use filerank::scorers::{create_key, scorer_name, HiddenFilter, ScorerKind};
use filerank::stage::Stage;
use filerank::stats::RunStats;

fn tokens(v: &[&str]) -> Vec<String> {
    v.iter().map(|s| String::from(*s)).collect()
}

#[test]
fn fold_lowers_ascii_and_leaves_the_rest() {
    assert_eq!(fold_bytes(&b"AbC-12z".to_vec()), b"abc-12z".to_vec());
    assert_eq!(fold_bytes(&Vec::new()), Vec::<u8>::new());
}

#[test]
fn containment_and_counting_are_exact() {
    let c = b"banana".to_vec();
    assert!(contains_bytes(&c, &b"nan".to_vec()));
    assert!(!contains_bytes(&c, &b"nano".to_vec()));
    assert!(contains_bytes(&c, &Vec::new()));
    assert_eq!(count_bytes(&c, &b"an".to_vec()), 2);
    assert_eq!(count_bytes(&c, &b"banana".to_vec()), 1);
    assert_eq!(count_bytes(&c, &b"x".to_vec()), 0);
    assert_eq!(count_bytes(&b"aaaa".to_vec(), &b"aa".to_vec()), 2);
}

#[test]
fn create_key_wraps_the_target_in_parentheses() {
    let key = create_key(&String::from("Is"), &String::from("txt"));
    assert_eq!(key, String::from("Is(txt)"));
    assert_eq!(scorer_name(ScorerKind::Hasnt), "Hasnt");
}

#[test]
fn hidden_filter_drops_dot_names_unless_allowed() {
    let strict = HiddenFilter::_new(false);
    assert!(!strict.filter(&b".git".to_vec()));
    assert!(strict.filter(&b"src".to_vec()));
    assert!(strict.filter(&Vec::new()));
    let relaxed = HiddenFilter::_new(true);
    assert!(relaxed.filter(&b".git".to_vec()));
}

#[test]
fn loader_names_parse_to_their_kinds() {
    assert!(matches!(parse(&String::from("content-path")), Some(LoaderKind::Path)));
    assert!(matches!(parse(&String::from("content-text")), Some(LoaderKind::Text)));
    assert!(matches!(parse(&String::from("content-title")), Some(LoaderKind::Title)));
    assert!(matches!(parse(&String::from("content-ext")), Some(LoaderKind::Ext)));
    assert!(parse(&String::from("content-exec")).is_none());
    assert!(parse(&String::from("title")).is_none());
}

#[test]
fn arg_matching_covers_long_and_bare_forms() {
    let arg = Arg::new('m', "more");
    assert!(arg.is("--more"));
    assert!(arg.is("more"));
    assert!(arg.is("m"));
    assert!(!arg.is("--less"));
    assert!(!arg.is("x"));
}

#[test]
fn parse_args_expands_long_and_short_flags() {
    let parsed = parse_args(&tokens(&["--more", "term", "-ri"])).unwrap();
    assert_eq!(parsed.len(), 3);
    assert_eq!(parsed[0].long, String::from("more"));
    assert_eq!(parsed[0].short, 'm');
    assert_eq!(parsed[0].get_value(), Some(String::from("term")));
    assert_eq!(parsed[1].long, String::from("recursive"));
    assert_eq!(parsed[2].long, String::from("insensitive"));
    assert_eq!(parsed[1].get_value(), None);
}

#[test]
fn parse_args_rejects_unknown_flags() {
    let err = match parse_args(&tokens(&["--nosuch"])) {
        Err(e) => e,
        Ok(_) => panic!("expected an error"),
    };
    assert!(matches!(err, ConfigError::UnknownArgument(_)));
    let err = match parse_args(&tokens(&["-rq"])) {
        Err(e) => e,
        Ok(_) => panic!("expected an error"),
    };
    assert!(matches!(err, ConfigError::UnknownArgument(_)));
}

#[test]
fn leading_bare_token_is_dropped() {
    let parsed = parse_args(&tokens(&["pattern", "--more", "x"])).unwrap();
    assert_eq!(parsed.len(), 1);
    assert_eq!(parsed[0].get_value(), Some(String::from("x")));
}

#[test]
fn content_runs_build_stages_in_flag_order() {
    let parsed = parse_args(&tokens(&[
        "--content-ext",
        "--is",
        "txt",
        "--content-text",
        "--insensitive",
        "--more",
        "foo",
    ]))
    .unwrap();
    let stages = get_content_runs(&parsed).unwrap();
    assert_eq!(stages.len(), 2);
    assert!(matches!(stages[0].loader, LoaderKind::Ext));
    assert_eq!(stages[0].scorers.len(), 1);
    assert!(matches!(stages[0].scorers[0].kind, ScorerKind::Is));
    assert_eq!(stages[0].scorers[0].target, String::from("txt"));
    assert!(!stages[0].insensitive);
    assert!(matches!(stages[1].loader, LoaderKind::Text));
    assert!(matches!(stages[1].scorers[0].kind, ScorerKind::More));
    assert_eq!(stages[1].scorers[0].target, String::from("foo"));
    assert!(stages[1].insensitive);
}

#[test]
fn first_implicit_stage_keeps_the_title_loader() {
    let parsed = parse_args(&tokens(&["--has", "x"])).unwrap();
    let stages = get_content_runs(&parsed).unwrap();
    assert_eq!(stages.len(), 1);
    assert!(matches!(stages[0].loader, LoaderKind::Title));
    assert!(stages[0].insensitive);
    assert!(matches!(stages[0].scorers[0].kind, ScorerKind::Has));
}

#[test]
fn exec_loader_takes_its_command_from_the_value() {
    let parsed = parse_args(&tokens(&["--content-exec", "wc -l", "--more", "x"])).unwrap();
    let stages = get_content_runs(&parsed).unwrap();
    assert_eq!(stages.len(), 1);
    match &stages[0].loader {
        LoaderKind::Exec(cmd) => assert_eq!(cmd, &String::from("wc -l")),
        _ => panic!("expected the exec loader"),
    }
}

#[test]
fn scorer_without_target_is_a_configuration_error() {
    let parsed = parse_args(&tokens(&["--is"])).unwrap();
    let err = match get_content_runs(&parsed) {
        Err(e) => e,
        Ok(_) => panic!("expected an error"),
    };
    assert!(matches!(err, ConfigError::MissingTarget(_)));
    let parsed = parse_args(&tokens(&["--content-exec"])).unwrap();
    let err = match get_content_runs(&parsed) {
        Err(e) => e,
        Ok(_) => panic!("expected an error"),
    };
    assert!(matches!(err, ConfigError::MissingTarget(_)));
}

#[test]
fn no_flags_give_the_single_default_stage() {
    let parsed = parse_args(&tokens(&[])).unwrap();
    let stages = get_content_runs(&parsed).unwrap();
    assert_eq!(stages.len(), 1);
    assert!(matches!(stages[0].loader, LoaderKind::Title));
    assert_eq!(stages[0].scorers.len(), 1);
    assert!(matches!(stages[0].scorers[0].kind, ScorerKind::Pass));
    assert!(!stages[0].is_valid());
}

#[test]
fn stats_count_invocations_per_key() {
    let st = Stage {
        loader: LoaderKind::Title,
        scorers: vec![
            filerank::stage::ScorerSpec { kind: ScorerKind::Has, target: String::from("a") },
        ],
        insensitive: false,
    };
    let mut rs = RunStats::new(&st);
    let key = String::from("Has(a)");
    rs.start_operation(&key, 5);
    rs.stop_operation(&key);
    rs.start_operation(&key, 7);
    rs.stop_operation(&key);
    let rows = rs.report();
    assert_eq!(rows.len(), 1);
    assert!(rows[0].executed);
    assert_eq!(rows[0].n, 2);
    assert_eq!(rows[0].total_size, 12);
}

#[test]
fn stopping_an_unknown_operation_changes_nothing() {
    let st = Stage { loader: LoaderKind::Title, scorers: Vec::new(), insensitive: false };
    let mut rs = RunStats::new(&st);
    rs.stop_operation(&String::from("Is(x)"));
    assert_eq!(rs.operations.len(), 0);
}

#[test]
fn metadata_scorers_match_mode_and_directory_flag() {
    let file_meta = FileMeta { mode: 0o100644, uid: 0, gid: 0, modified_secs: 0, is_dir: false };
    let dir_meta = FileMeta { mode: 0o40755, uid: 0, gid: 0, modified_secs: 0, is_dir: true };
    let by_mode = PermissionScoreSpec { permission: 0o100644 };
    assert_eq!(by_mode.score(&file_meta), 1);
    assert_eq!(by_mode.score(&dir_meta), 0);
    let by_dir = DirScoreSpec { is_dir: true };
    assert_eq!(by_dir.score(&dir_meta), 1);
    assert_eq!(by_dir.score(&file_meta), 0);
}

#[test]
fn metadata_search_ranks_matching_entries_first() {
    let entries = vec![
        (FileData::new(b"plain".to_vec()),
         FileMeta { mode: 0, uid: 0, gid: 0, modified_secs: 0, is_dir: false }),
        (FileData::new(b"dir".to_vec()),
         FileMeta { mode: 0, uid: 0, gid: 0, modified_secs: 0, is_dir: true }),
    ];
    let ranked = metadata_search(entries, &DirScoreSpec { is_dir: true });
    assert_eq!(ranked.len(), 2);
    assert_eq!(ranked[0].entry.path(), &b"dir".to_vec());
    assert_eq!(ranked[0].score, 1);
    assert_eq!(ranked[1].score, 0);
}

#[test]
fn permission_string_renders_ten_characters() {
    let all_clear = permission_string(0, false);
    assert_eq!(all_clear, b"-r-xr-xr-x".to_vec());
    let dir = permission_string(0, true);
    assert_eq!(dir[0], b'd');
    let bits = permission_string(0b111, false);
    assert_eq!(&bits[0..4], b"--w-");
}

#[test]
fn relative_paths_strip_the_parent_prefix() {
    let parent = b"/home/user".to_vec();
    assert_eq!(path_rel(&b"/home/user/notes.txt".to_vec(), &parent), b"notes.txt".to_vec());
    assert_eq!(path_rel(&b"/home/user".to_vec(), &parent), Vec::<u8>::new());
    assert_eq!(path_rel(&b"/etc/hosts".to_vec(), &parent), b"/etc/hosts".to_vec());
}
