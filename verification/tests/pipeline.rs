use bathpack::config::{Config, DestLoc, Destination, Source};
use bathpack::disk::{Answer, ListingFailure, Query};
use bathpack::error::FileMapError;
use bathpack::file_map::expand::{expand_file, expand_folder, expand_source};
use bathpack::file_map::{FileMap, FileMapBuilder};
use bathpack::path::FilePath;
use bathpack::pattern::PatternError;
use bathpack::table::NameMap;
use bathpack::template::TemplateError;

fn p(text: &str) -> FilePath {
    FilePath::parse(text)
}

fn file(path: &str) -> Source {
    Source::File(path.to_string())
}

fn folder(path: &str, pattern: &str) -> Source {
    Source::Folder { path: path.to_string(), pattern: pattern.to_string() }
}

fn config(name: &str, sources: Vec<(&str, Source)>, locations: Vec<(&str, &str)>) -> Config {
    let mut source_map = NameMap::new();
    for (key, source) in sources {
        source_map.insert(key.to_string(), source);
    }
    let mut location_map = NameMap::new();
    for (key, path) in locations {
        location_map.insert(key.to_string(), DestLoc::Folder(path.to_string()));
    }
    Config::new("u1".to_string(), source_map, Destination::new(name.to_string(), true, location_map))
}

fn listing(matches: Vec<&str>) -> Answer {
    Answer::Listing { matches: matches.iter().map(|m| m.to_string()).collect(), failures: Vec::new() }
}

fn canonical(path: &str) -> Answer {
    Answer::Canonical(path.to_string())
}

fn rendered(map: &FileMap) -> Vec<(String, String)> {
    map.pairs().iter().map(|(s, d)| (s.render(), d.render())).collect()
}

fn pair(source: &str, dest: &str) -> (String, String) {
    (source.to_string(), dest.to_string())
}

fn single_file() -> Config {
    config("submit-{username}", vec![("doc", file("report.pdf"))], vec![("doc", "final")])
}

#[test]
fn single_file_resolves_to_one_pair() {
    let answers = vec![canonical("/proj")];
    let existing = vec![p("/proj/report.pdf")];
    let map = FileMapBuilder::from(single_file(), p("/proj")).build(&answers, &existing).unwrap();
    assert_eq!(map.root_dir().render(), "/proj");
    assert_eq!(map.dest_dir().render(), "/proj/submit-u1");
    assert!(map.archive());
    assert_eq!(rendered(&map), vec![pair("/proj/report.pdf", "/proj/submit-u1/final/report.pdf")]);
}

#[test]
fn missing_file_is_an_existence_failure() {
    let answers = vec![canonical("/proj")];
    let existing = Vec::new();
    let err = FileMapBuilder::from(single_file(), p("/proj")).build(&answers, &existing).unwrap_err();
    assert_eq!(err, FileMapError::NonexistentFiles { files: vec!["/proj/report.pdf".to_string()] });
}

#[test]
fn disjoint_names_are_a_pairing_failure() {
    let cfg = config("out", vec![("a", file("a.txt"))], vec![("b", "there")]);
    let answers = vec![canonical("/proj")];
    let existing = vec![p("/proj/a.txt")];
    let err = FileMapBuilder::from(cfg, p("/proj")).build(&answers, &existing).unwrap_err();
    assert_eq!(
        err,
        FileMapError::Pairing {
            missing_sources: vec!["b".to_string()],
            missing_destinations: vec!["a".to_string()],
        }
    );
}

#[test]
fn pairing_lists_every_name_on_one_side_only() {
    let cfg = config(
        "out",
        vec![("x", file("x")), ("both", file("b")), ("a", file("a"))],
        vec![("q", "1"), ("both", "2"), ("c", "3"), ("d", "4")],
    );
    let answers = vec![canonical("/proj"), canonical("/proj"), canonical("/proj")];
    let err = FileMapBuilder::from(cfg, p("/proj")).build(&answers, &Vec::new()).unwrap_err();
    assert_eq!(
        err,
        FileMapError::Pairing {
            missing_sources: vec!["c".to_string(), "d".to_string(), "q".to_string()],
            missing_destinations: vec!["a".to_string(), "x".to_string()],
        }
    );
}

#[test]
fn pairing_with_one_side_complete_still_carries_both_lists() {
    let cfg = config("out", vec![("a", file("a")), ("b", file("b"))], vec![("a", "1")]);
    let answers = vec![canonical("/proj"), canonical("/proj")];
    let err = FileMapBuilder::from(cfg, p("/proj")).build(&answers, &Vec::new()).unwrap_err();
    assert_eq!(
        err,
        FileMapError::Pairing { missing_sources: Vec::new(), missing_destinations: vec!["b".to_string()] }
    );
}

#[test]
fn matching_names_pair_in_ascending_order() {
    let cfg = config(
        "out",
        vec![("b", file("b.txt")), ("c", file("c.txt")), ("a", file("a.txt"))],
        vec![("c", "3"), ("a", "1"), ("b", "2")],
    );
    let answers = vec![canonical("/proj"), canonical("/proj"), canonical("/proj")];
    let expanded = FileMapBuilder::from(cfg, p("/proj"))
        .format_destination()
        .unwrap()
        .expand_paths(&answers)
        .unwrap();
    let paired = expanded.pair_locations().unwrap();
    let names: Vec<String> = paired.pairs().iter().map(|q| q.name().clone()).collect();
    assert_eq!(names, vec!["a", "b", "c"]);
    let dests: Vec<String> = paired.pairs().iter().map(|q| q.dest().root().render()).collect();
    assert_eq!(dests, vec!["/proj/out/1", "/proj/out/2", "/proj/out/3"]);
    let bases: Vec<String> = paired.pairs().iter().map(|q| q.source().base().render()).collect();
    assert_eq!(bases, vec!["/proj", "/proj", "/proj"]);
}

#[test]
fn two_runs_give_the_same_file_map() {
    let run = || {
        let cfg = config(
            "submit-{username}",
            vec![("src", folder("code", "**/*.rs")), ("doc", file("report.pdf"))],
            vec![("src", "source"), ("doc", "final")],
        );
        let answers = vec![
            canonical("/proj"),
            listing(vec!["/proj/code/main.rs", "/proj/code/util/io.rs"]),
        ];
        let existing = vec![p("/proj/code/util/io.rs"), p("/proj/report.pdf"), p("/proj/code/main.rs")];
        FileMapBuilder::from(cfg, p("/proj")).build(&answers, &existing).unwrap()
    };
    let first = run();
    let second = run();
    assert_eq!(rendered(&first), rendered(&second));
    assert_eq!(
        rendered(&first),
        vec![
            pair("/proj/report.pdf", "/proj/submit-u1/final/report.pdf"),
            pair("/proj/code/main.rs", "/proj/submit-u1/source/main.rs"),
            pair("/proj/code/util/io.rs", "/proj/submit-u1/source/util/io.rs"),
        ]
    );
}

#[test]
fn folder_source_keeps_its_inner_folders() {
    let cfg = config("D", vec![("files", folder("base", "**/*.txt"))], vec![("files", ".")]);
    let answers = vec![listing(vec!["/base/a.txt", "/base/sub/b.txt"])];
    let existing = vec![p("/base/a.txt"), p("/base/sub/b.txt")];
    let map = FileMapBuilder::from(cfg, p("/")).build(&answers, &existing).unwrap();
    assert_eq!(
        rendered(&map),
        vec![pair("/base/a.txt", "/D/a.txt"), pair("/base/sub/b.txt", "/D/sub/b.txt")]
    );
}

#[test]
fn folder_source_that_matches_nothing_gives_no_pairs() {
    let cfg = config("out", vec![("files", folder("base", "*.txt"))], vec![("files", "there")]);
    let answers = vec![listing(Vec::new())];
    let map = FileMapBuilder::from(cfg, p("/proj")).build(&answers, &Vec::new()).unwrap();
    assert!(map.pairs().is_empty());
    assert_eq!(map.dest_dir().render(), "/proj/out");
}

#[test]
fn empty_configuration_gives_an_empty_map() {
    let cfg = config("out", Vec::new(), Vec::new());
    let map = FileMapBuilder::from(cfg, p("/proj")).build(&Vec::new(), &Vec::new()).unwrap();
    assert!(map.pairs().is_empty());
}

#[test]
fn location_that_climbs_out_is_a_scope_failure() {
    let cfg = config("D", vec![("doc", file("x"))], vec![("doc", "../escape")]);
    let answers = vec![canonical("/proj")];
    let existing = vec![p("/proj/x")];
    let err = FileMapBuilder::from(cfg, p("/proj")).build(&answers, &existing).unwrap_err();
    assert_eq!(err, FileMapError::Scope { paths: vec!["/proj/D/../escape/x".to_string()] });
}

#[test]
fn location_beside_the_destination_is_a_scope_failure() {
    let cfg = config("out", vec![("doc", file("x"))], vec![("doc", "/outside")]);
    let answers = vec![canonical("/proj")];
    let existing = vec![p("/proj/x")];
    let err = FileMapBuilder::from(cfg, p("/")).build(&answers, &existing).unwrap_err();
    assert_eq!(err, FileMapError::Scope { paths: vec!["/outside/x".to_string()] });
}

#[test]
fn pattern_that_climbs_out_is_a_scope_failure() {
    let cfg = config("out", vec![("files", folder("base", "../*.txt"))], vec![("files", ".")]);
    let answers = vec![listing(vec!["/proj/base/../a.txt", "/proj/base/ok.txt", "/proj/base/../b.txt"])];
    let existing = Vec::new();
    let err = FileMapBuilder::from(cfg, p("/proj")).build(&answers, &existing).unwrap_err();
    assert_eq!(
        err,
        FileMapError::Scope {
            paths: vec!["/proj/out/../a.txt".to_string(), "/proj/out/../b.txt".to_string()]
        }
    );
}

#[test]
fn scope_is_checked_before_existence() {
    let cfg = config(
        "out",
        vec![("a", file("a")), ("b", file("b"))],
        vec![("a", "fine"), ("b", "../up")],
    );
    let answers = vec![canonical("/proj"), canonical("/proj")];
    let err = FileMapBuilder::from(cfg, p("/proj")).build(&answers, &Vec::new()).unwrap_err();
    assert_eq!(err, FileMapError::Scope { paths: vec!["/proj/out/../up/b".to_string()] });
}

#[test]
fn existence_lists_every_missing_file() {
    let cfg = config("out", vec![("files", folder("base", "*"))], vec![("files", "x")]);
    let answers = vec![listing(vec!["/proj/base/a", "/proj/base/b", "/proj/base/c"])];
    let existing = vec![p("/proj/base/b")];
    let err = FileMapBuilder::from(cfg, p("/proj")).build(&answers, &existing).unwrap_err();
    assert_eq!(
        err,
        FileMapError::NonexistentFiles {
            files: vec!["/proj/base/a".to_string(), "/proj/base/c".to_string()]
        }
    );
}

#[test]
fn malformed_destination_name_is_a_template_failure() {
    let cfg = config("submit-{username", vec![("doc", file("x"))], vec![("doc", "final")]);
    let err = FileMapBuilder::from(cfg, p("/proj")).format_destination().unwrap_err();
    assert_eq!(
        err,
        FileMapError::Template(TemplateError::Invalid("Expected '}' before end of string".to_string()))
    );
}

#[test]
fn unknown_variable_is_a_template_failure() {
    let cfg = config("submit-{user}", vec![("doc", file("x"))], vec![("doc", "final")]);
    let err = FileMapBuilder::from(cfg, p("/proj")).build(&Vec::new(), &Vec::new()).unwrap_err();
    assert_eq!(err, FileMapError::Template(TemplateError::KeyError("Invalid key: user".to_string())));
}

#[test]
fn wrong_format_code_is_a_template_failure() {
    let cfg = config("submit-{username:x}", vec![("doc", file("x"))], vec![("doc", "final")]);
    let err = FileMapBuilder::from(cfg, p("/proj")).format_destination().unwrap_err();
    assert!(matches!(err, FileMapError::Template(TemplateError::TypeError(_))));
}

#[test]
fn destination_name_is_filled_in_once() {
    let mut sources = NameMap::new();
    sources.insert("doc".to_string(), file("x"));
    let mut locations = NameMap::new();
    locations.insert("doc".to_string(), DestLoc::Folder("final".to_string()));
    let cfg = Config::new(
        "{username}".to_string(),
        sources,
        Destination::new("a-{username}-{{b}}".to_string(), false, locations),
    );
    let formatted = FileMapBuilder::from(cfg, p("/proj")).format_destination().unwrap();
    assert_eq!(formatted.dest_dir().render(), "/proj/a-{username}-{b}");
    assert_eq!(formatted.root_dir().render(), "/proj");
    assert!(!formatted.archive());
}

#[test]
fn location_path_is_filled_in() {
    let cfg = config("out", vec![("doc", file("x"))], vec![("doc", "by-{username}/docs")]);
    let answers = vec![canonical("/proj")];
    let existing = vec![p("/proj/x")];
    let map = FileMapBuilder::from(cfg, p("/proj")).build(&answers, &existing).unwrap();
    assert_eq!(rendered(&map), vec![pair("/proj/x", "/proj/out/by-u1/docs/x")]);
}

#[test]
fn malformed_location_path_is_a_template_failure() {
    let cfg = config("out", vec![("doc", file("x"))], vec![("doc", "a}b")]);
    let answers = vec![canonical("/proj")];
    let err = FileMapBuilder::from(cfg, p("/proj")).build(&answers, &Vec::new()).unwrap_err();
    assert_eq!(
        err,
        FileMapError::Template(TemplateError::Invalid(
            "Single '}' encountered in format string".to_string()
        ))
    );
}

#[test]
fn queries_name_what_to_look_up() {
    let cfg = config(
        "out",
        vec![("src", folder("code", "**/*.rs")), ("doc", file("docs/report.pdf")), ("abs", folder("x", "/etc/*"))],
        vec![],
    );
    let formatted = FileMapBuilder::from(cfg, p("/proj")).format_destination().unwrap();
    assert_eq!(
        formatted.queries(),
        vec![
            Query::Glob { pattern: "/etc/*".to_string() },
            Query::Canonicalize { path: "/proj/docs".to_string() },
            Query::Glob { pattern: "/proj/code/**/*.rs".to_string() },
        ]
    );
}

#[test]
fn queries_from_the_root_and_from_nowhere() {
    let cfg = config("out", vec![("a", folder("", "*.txt"))], vec![]);
    let formatted = FileMapBuilder::from(cfg, p("/")).format_destination().unwrap();
    assert_eq!(formatted.queries(), vec![Query::Glob { pattern: "/*.txt".to_string() }]);
    let cfg = config("out", vec![("a", folder("", "*.txt"))], vec![]);
    let formatted = FileMapBuilder::from(cfg, p("")).format_destination().unwrap();
    assert_eq!(formatted.queries(), vec![Query::Glob { pattern: "*.txt".to_string() }]);
}

#[test]
fn source_without_an_answer_is_unanswered() {
    let cfg = config("out", vec![("a", file("a")), ("b", file("b"))], vec![("a", "1"), ("b", "2")]);
    let answers = vec![canonical("/proj")];
    let err = FileMapBuilder::from(cfg, p("/proj")).build(&answers, &Vec::new()).unwrap_err();
    assert_eq!(err, FileMapError::Unanswered { name: "b".to_string() });
}

#[test]
fn answer_of_the_wrong_kind_is_unanswered() {
    let cfg = config("out", vec![("a", file("a"))], vec![("a", "1")]);
    let err = FileMapBuilder::from(cfg, p("/proj")).build(&vec![listing(vec![])], &Vec::new()).unwrap_err();
    assert_eq!(err, FileMapError::Unanswered { name: "a".to_string() });
    let cfg = config("out", vec![("a", folder("a", "*"))], vec![("a", "1")]);
    let err = FileMapBuilder::from(cfg, p("/proj")).build(&vec![canonical("/proj")], &Vec::new()).unwrap_err();
    assert_eq!(err, FileMapError::Unanswered { name: "a".to_string() });
}

#[test]
fn unresolved_file_is_a_canonicalize_failure() {
    let cfg = config("out", vec![("a", file("gone/a.txt"))], vec![("a", "1")]);
    let answers = vec![Answer::Unresolved("No such file or directory".to_string())];
    let err = FileMapBuilder::from(cfg, p("/proj")).build(&answers, &Vec::new()).unwrap_err();
    assert_eq!(
        err,
        FileMapError::Canonicalize {
            path: "/proj/gone".to_string(),
            reason: "No such file or directory".to_string()
        }
    );
}

#[test]
fn file_without_a_parent_is_a_failure() {
    let cfg = config("out", vec![("a", file("."))], vec![("a", "1")]);
    let err = FileMapBuilder::from(cfg, p("/")).build(&vec![canonical("/")], &Vec::new()).unwrap_err();
    assert_eq!(err, FileMapError::NoParent { path: "/".to_string() });
    let cfg = config("out", vec![("a", file(""))], vec![("a", "1")]);
    let formatted = FileMapBuilder::from(cfg, p("")).format_destination().unwrap();
    assert_eq!(formatted.queries(), vec![Query::Canonicalize { path: "".to_string() }]);
    let err = formatted.expand_paths(&Vec::new()).unwrap_err();
    assert_eq!(err, FileMapError::NoParent { path: "".to_string() });
}

#[test]
fn file_source_takes_the_resolved_folder_as_its_base() {
    let cfg = config("out", vec![("a", file("link/deep/a.txt"))], vec![("a", "1")]);
    let formatted = FileMapBuilder::from(cfg, p("/proj")).format_destination().unwrap();
    assert_eq!(formatted.queries(), vec![Query::Canonicalize { path: "/proj/link/deep".to_string() }]);
    let expanded = formatted.expand_paths(&vec![canonical("/real/deep")]).unwrap();
    assert_eq!(expanded.sources().item(0).base().render(), "/real/deep");
    assert_eq!(expanded.sources().item(0).items()[0].render(), "/real/deep/a.txt");
    let map = expanded.resolve(&vec![p("/real/deep/a.txt")]).unwrap();
    assert_eq!(rendered(&map), vec![pair("/real/deep/a.txt", "/proj/out/1/a.txt")]);
}

#[test]
fn malformed_pattern_is_a_pattern_failure() {
    let cfg = config("out", vec![("a", folder("code", "a[b"))], vec![("a", "1")]);
    let answers = vec![listing(vec!["/proj/code/a[b"])];
    let err = FileMapBuilder::from(cfg, p("/proj")).build(&answers, &Vec::new()).unwrap_err();
    assert_eq!(
        err,
        FileMapError::Pattern {
            pattern: "/proj/code/a[b".to_string(),
            position: 12,
            message: "invalid range pattern".to_string()
        }
    );
}

#[test]
fn malformed_wildcard_is_a_pattern_failure() {
    let cfg = config("out", vec![("a", folder("code", "**a"))], vec![("a", "1")]);
    let err = FileMapBuilder::from(cfg, p("/proj")).build(&Vec::new(), &Vec::new()).unwrap_err();
    assert_eq!(
        err,
        FileMapError::Pattern {
            pattern: "/proj/code/**a".to_string(),
            position: 13,
            message: "recursive wildcards must form a single path component".to_string()
        }
    );
}

#[test]
fn well_formed_patterns_pass() {
    for pattern in ["*.txt", "**/*.rs", "a?c", "[abc]*", "[!a-z]", "plain", "**"] {
        let cfg = config("out", vec![("a", folder("code", pattern))], vec![("a", "1")]);
        let map = FileMapBuilder::from(cfg, p("/proj")).build(&vec![listing(vec![])], &Vec::new()).unwrap();
        assert!(map.pairs().is_empty());
    }
}

#[test]
fn expand_folder_goes_by_the_verdict_it_is_given() {
    let root = p("/proj");
    let name = "a".to_string();
    let path = "code".to_string();
    let pattern = "*".to_string();
    let answer = listing(vec!["/proj/code/x"]);
    let fault = PatternError { position: 3, message: "odd".to_string() };
    let err = expand_folder(&root, &name, &path, &pattern, Some(fault), Some(&answer)).unwrap_err();
    assert_eq!(
        err,
        FileMapError::Pattern { pattern: "/proj/code/*".to_string(), position: 3, message: "odd".to_string() }
    );
    let source = expand_folder(&root, &name, &path, &pattern, None, Some(&answer)).unwrap();
    assert_eq!(source.base().render(), "/proj/code");
    assert_eq!(source.items().len(), 1);
    assert_eq!(source.items()[0].render(), "/proj/code/x");
    let err = expand_folder(&root, &name, &path, &pattern, None, None).unwrap_err();
    assert_eq!(err, FileMapError::Unanswered { name: "a".to_string() });
}

#[test]
fn expand_file_joins_the_file_onto_the_resolved_folder() {
    let root = p("/proj");
    let name = "doc".to_string();
    let rel = "docs/report.pdf".to_string();
    let source = expand_file(&root, &name, &rel, Some(&canonical("/srv/docs"))).unwrap();
    assert_eq!(source.base().render(), "/srv/docs");
    assert_eq!(source.items()[0].render(), "/srv/docs/report.pdf");
    let source = expand_source(&root, &name, &Source::File(rel), Some(&canonical("/"))).unwrap();
    assert_eq!(source.items()[0].render(), "/report.pdf");
}

#[test]
fn listing_failures_are_reported_together() {
    let cfg = config("out", vec![("a", folder("code", "**/*"))], vec![("a", "1")]);
    let failures = vec![
        ListingFailure { path: "/proj/code/secret".to_string(), reason: "Permission denied".to_string() },
        ListingFailure { path: "/proj/code/other".to_string(), reason: "Input/output error".to_string() },
    ];
    let answers =
        vec![Answer::Listing { matches: vec!["/proj/code/a".to_string()], failures: failures.clone() }];
    let err = FileMapBuilder::from(cfg, p("/proj")).build(&answers, &Vec::new()).unwrap_err();
    assert_eq!(err, FileMapError::Glob { failures });
}

#[test]
fn listed_path_off_the_base_is_invalid() {
    let cfg = config("out", vec![("a", folder("code", "*"))], vec![("a", "1")]);
    let answers = vec![listing(vec!["/proj/code/a", "/proj/coder/b", "/proj/code/c", "/elsewhere/d"])];
    let err = FileMapBuilder::from(cfg, p("/proj")).build(&answers, &Vec::new()).unwrap_err();
    assert_eq!(
        err,
        FileMapError::InvalidPath { paths: vec!["/proj/coder/b".to_string(), "/elsewhere/d".to_string()] }
    );
}

#[test]
fn unread_paths_are_reported_before_paths_off_the_base() {
    let cfg = config("out", vec![("a", folder("code", "*"))], vec![("a", "1")]);
    let failures = vec![ListingFailure { path: "/proj/code/s".to_string(), reason: "denied".to_string() }];
    let answers =
        vec![Answer::Listing { matches: vec!["/elsewhere/d".to_string()], failures: failures.clone() }];
    let err = FileMapBuilder::from(cfg, p("/proj")).build(&answers, &Vec::new()).unwrap_err();
    assert_eq!(err, FileMapError::Glob { failures });
}

#[test]
fn destination_that_comes_back_under_the_root_is_in_scope() {
    let cfg = config("out", vec![("doc", file("x"))], vec![("doc", "a/../../out/final")]);
    let answers = vec![canonical("/proj")];
    let existing = vec![p("/proj/x")];
    let map = FileMapBuilder::from(cfg, p("/proj")).build(&answers, &existing).unwrap();
    assert_eq!(rendered(&map), vec![pair("/proj/x", "/proj/out/a/../../out/final/x")]);
}

#[test]
fn scope_failure_lists_every_path_that_resolves_outside() {
    let cfg = config(
        "out",
        vec![("a", file("a")), ("b", file("b")), ("c", file("c")), ("d", file("d"))],
        vec![("a", "../up"), ("b", "fine"), ("c", "/outside"), ("d", "x/../../out/back")],
    );
    let answers = vec![canonical("/proj"), canonical("/proj"), canonical("/proj"), canonical("/proj")];
    let err = FileMapBuilder::from(cfg, p("/proj")).build(&answers, &Vec::new()).unwrap_err();
    assert_eq!(
        err,
        FileMapError::Scope { paths: vec!["/proj/out/../up/a".to_string(), "/outside/c".to_string()] }
    );
}

#[test]
fn first_failing_source_decides() {
    let cfg = config(
        "out",
        vec![("b", folder("code", "[")), ("a", file("a")), ("c", file("c"))],
        vec![("a", "1"), ("b", "2"), ("c", "3")],
    );
    let answers = vec![canonical("/proj"), listing(vec![]), Answer::Unresolved("gone".to_string())];
    let err = FileMapBuilder::from(cfg, p("/proj")).build(&answers, &Vec::new()).unwrap_err();
    assert!(matches!(err, FileMapError::Pattern { .. }));
}

#[test]
fn source_failure_comes_before_location_failure() {
    let cfg = config("out", vec![("a", file("a"))], vec![("a", "{nobody}")]);
    let answers = vec![Answer::Unresolved("gone".to_string())];
    let err = FileMapBuilder::from(cfg, p("/proj")).build(&answers, &Vec::new()).unwrap_err();
    assert!(matches!(err, FileMapError::Canonicalize { .. }));
}

#[test]
fn stages_agree_with_build() {
    let answers = vec![canonical("/proj")];
    let existing = vec![p("/proj/report.pdf")];
    let formatted = FileMapBuilder::from(single_file(), p("/proj")).format_destination().unwrap();
    let expanded = formatted.expand_paths(&answers).unwrap();
    assert_eq!(expanded.dest_dir().render(), "/proj/submit-u1");
    assert_eq!(expanded.sources().len(), 1);
    assert_eq!(expanded.sources().item(0).base().render(), "/proj");
    assert_eq!(expanded.sources().item(0).items().len(), 1);
    assert_eq!(expanded.dests().item(0).root().render(), "/proj/submit-u1/final");
    let flattened = expanded.pair_locations().unwrap().flatten_locations().unwrap();
    assert_eq!(flattened.dest_dir().render(), "/proj/submit-u1");
    assert_eq!(flattened.pairs().len(), 1);
    let verified = flattened.verify_scope().unwrap();
    assert_eq!(verified.pairs().len(), 1);
    assert_eq!(verified.sources(), vec![p("/proj/report.pdf")]);
    let staged = verified.verify_existence(&existing).unwrap();
    let direct = FileMapBuilder::from(single_file(), p("/proj")).build(&answers, &existing).unwrap();
    assert_eq!(rendered(&staged), rendered(&direct));
}

#[test]
fn resolve_runs_the_stages_after_the_expansion() {
    let answers = vec![canonical("/proj")];
    let expanded = FileMapBuilder::from(single_file(), p("/proj"))
        .format_destination()
        .unwrap()
        .expand_paths(&answers)
        .unwrap();
    let err = expanded.resolve(&vec![p("/proj/other.pdf")]).unwrap_err();
    assert_eq!(err, FileMapError::NonexistentFiles { files: vec!["/proj/report.pdf".to_string()] });
}

#[test]
fn place_destination_takes_the_name_as_given() {
    let placed = FileMapBuilder::from(single_file(), p("/proj"))
        .place_destination(Ok("elsewhere/deep".to_string()))
        .unwrap();
    assert_eq!(placed.dest_dir().render(), "/proj/elsewhere/deep");
    let err = FileMapBuilder::from(single_file(), p("/proj"))
        .place_destination(Err(TemplateError::KeyError("k".to_string())))
        .unwrap_err();
    assert_eq!(err, FileMapError::Template(TemplateError::KeyError("k".to_string())));
}

#[test]
fn absolute_destination_name_replaces_the_root() {
    let cfg = config("/tmp/out", vec![("doc", file("x"))], vec![("doc", "final")]);
    let answers = vec![canonical("/proj")];
    let existing = vec![p("/proj/x")];
    let map = FileMapBuilder::from(cfg, p("/proj")).build(&answers, &existing).unwrap();
    assert_eq!(map.dest_dir().render(), "/tmp/out");
    assert_eq!(rendered(&map), vec![pair("/proj/x", "/tmp/out/final/x")]);
}
