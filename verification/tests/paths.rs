use bathpack::path::FilePath;

fn p(text: &str) -> FilePath {
    FilePath::parse(text)
}

#[test]
fn parse_then_render_keeps_a_plain_path() {
    assert_eq!(p("/proj/report.pdf").render(), "/proj/report.pdf");
    assert_eq!(p("docs/a.txt").render(), "docs/a.txt");
}

#[test]
fn parse_drops_empty_components_and_dots() {
    assert_eq!(p("a//b/./c/").render(), "a/b/c");
    assert_eq!(p("./a").render(), "a");
    assert_eq!(p("/./").render(), "/");
    assert_eq!(p("//x").render(), "/x");
}

#[test]
fn parse_of_nothing_is_the_empty_relative_path() {
    let empty = p("");
    assert!(!empty.is_absolute());
    assert_eq!(empty.len(), 0);
    assert_eq!(empty.render(), "");
}

#[test]
fn parse_of_a_slash_is_the_root() {
    let root = p("/");
    assert!(root.is_absolute());
    assert_eq!(root.len(), 0);
    assert_eq!(root.render(), "/");
}

#[test]
fn parse_keeps_parent_steps() {
    let path = p("/out/../escape/x");
    assert_eq!(path.len(), 4);
    assert_eq!(path.render(), "/out/../escape/x");
}

#[test]
fn parse_counts_characters_not_bytes() {
    let path = p("/dépôt/ü.txt");
    assert_eq!(path.len(), 2);
    assert_eq!(path.render(), "/dépôt/ü.txt");
}

#[test]
fn join_appends_a_relative_path() {
    assert_eq!(p("/proj").join(&p("final/report.pdf")).render(), "/proj/final/report.pdf");
    assert_eq!(p("a").join(&p("")).render(), "a");
    assert_eq!(p("/").join(&p("a")).render(), "/a");
}

#[test]
fn join_with_an_absolute_path_replaces() {
    assert_eq!(p("/proj").join(&p("/elsewhere/x")).render(), "/elsewhere/x");
}

#[test]
fn parent_drops_the_last_component() {
    assert_eq!(p("/proj/report.pdf").parent().unwrap().render(), "/proj");
    assert_eq!(p("a").parent().unwrap().render(), "");
    assert_eq!(p("/a").parent().unwrap().render(), "/");
}

#[test]
fn parent_of_a_path_without_components_is_none() {
    assert!(p("/").parent().is_none());
    assert!(p("").parent().is_none());
}

#[test]
fn starts_with_compares_whole_components() {
    assert!(p("/dest/a").starts_with(&p("/dest")));
    assert!(p("/dest").starts_with(&p("/dest")));
    assert!(!p("/dest2/a").starts_with(&p("/dest")));
    assert!(!p("/dest").starts_with(&p("/dest2")));
    assert!(!p("/de").starts_with(&p("/dest")));
}

#[test]
fn starts_with_tells_absolute_from_relative() {
    assert!(!p("dest/a").starts_with(&p("/dest")));
    assert!(!p("/dest/a").starts_with(&p("dest")));
    assert!(p("dest/a").starts_with(&p("dest")));
}

#[test]
fn relative_to_gives_what_follows_the_base() {
    let rel = p("/base/sub/b.txt").relative_to(&p("/base")).unwrap();
    assert!(!rel.is_absolute());
    assert_eq!(rel.render(), "sub/b.txt");
    assert_eq!(p("/base").relative_to(&p("/base")).unwrap().render(), "");
}

#[test]
fn relative_to_is_none_off_the_base() {
    assert!(p("/other/b.txt").relative_to(&p("/base")).is_none());
    assert!(p("/basement/b.txt").relative_to(&p("/base")).is_none());
}

#[test]
fn within_accepts_what_lies_under_the_root() {
    assert!(p("/out/a").is_within(&p("/out")));
    assert!(p("/out").is_within(&p("/out")));
    assert!(p("/out/a/b/c.txt").is_within(&p("/out")));
    assert!(p("/out/a/../b").is_within(&p("/out")));
    assert!(p("/out/a/../x").is_within(&p("/out/")));
    assert!(p("/out/a/..").is_within(&p("/out")));
}

#[test]
fn within_accepts_what_comes_back_under_the_root() {
    assert!(p("/out/../out/x").is_within(&p("/out")));
    assert!(p("/o/a/../../o/x").is_within(&p("/o")));
    assert!(p("/elsewhere/../out/x").is_within(&p("/out")));
}

#[test]
fn within_rejects_what_resolves_outside_the_root() {
    assert!(!p("/out/../escape/x").is_within(&p("/out")));
    assert!(!p("/out/..").is_within(&p("/out")));
    assert!(!p("/out/a/../../b").is_within(&p("/out")));
    assert!(!p("/out/../out2/x").is_within(&p("/out")));
    assert!(!p("/out/x/../../..").is_within(&p("/out")));
}

#[test]
fn within_resolves_the_root_too() {
    assert!(p("/proj/../out/final/f").is_within(&p("/proj/../out")));
    assert!(p("/out/final/f").is_within(&p("/proj/../out")));
    assert!(!p("/proj/final/f").is_within(&p("/proj/../out")));
}

#[test]
fn within_takes_the_root_of_the_filesystem_as_its_own_parent() {
    assert!(p("/../escape/x").is_within(&p("/")));
    assert!(p("/a/../../b").is_within(&p("/")));
}

#[test]
fn within_rejects_a_relative_path_that_climbs_past_its_root() {
    assert!(p("out/a").is_within(&p("out")));
    assert!(p("a").is_within(&p("")));
    assert!(!p("../x").is_within(&p("")));
    assert!(p("../x").is_within(&p("..")));
    assert!(!p("../../x").is_within(&p("..")));
    assert!(!p("out/../../out/x").is_within(&p("out")));
}

#[test]
fn resolve_takes_names_away_at_parent_steps() {
    assert_eq!(p("/o/a/../../o/x").resolve().render(), "/o/x");
    assert_eq!(p("/a/b/../c").resolve().render(), "/a/c");
    assert_eq!(p("/..").resolve().render(), "/");
    assert_eq!(p("/../a").resolve().render(), "/a");
    assert_eq!(p("a/..").resolve().render(), "");
    assert_eq!(p("../a").resolve().render(), "../a");
    assert_eq!(p("a/../../b").resolve().render(), "../b");
    assert_eq!(p("../../a/..").resolve().render(), "../..");
    assert_eq!(p("/plain/path").resolve().render(), "/plain/path");
    assert_eq!(p("").resolve().render(), "");
}

#[test]
fn within_rejects_a_name_that_only_begins_like_the_root() {
    assert!(!p("/outside/x").is_within(&p("/out")));
    assert!(!p("/out2").is_within(&p("/out")));
    assert!(!p("/ou/t").is_within(&p("/out")));
}

#[test]
fn within_rejects_a_relative_path_under_an_absolute_root() {
    assert!(!p("out/a").is_within(&p("/out")));
}

#[test]
fn same_and_clone_agree() {
    let a = p("/x/y");
    let b = a.clone();
    assert!(a.same(&b));
    assert_eq!(a, b);
    assert!(!a.same(&p("/x/z")));
    assert!(!a.same(&p("x/y")));
    assert!(!a.same(&p("/x")));
    assert!(a.same(&p("/x//y/")));
}

#[test]
fn file_name_is_the_last_component() {
    let name = p("/proj/docs/report.pdf").file_name().unwrap();
    assert!(!name.is_absolute());
    assert_eq!(name.render(), "report.pdf");
    assert_eq!(p("a").file_name().unwrap().render(), "a");
    assert!(p("/").file_name().is_none());
    assert!(p("").file_name().is_none());
}

#[test]
fn parent_joined_with_file_name_is_the_path() {
    for text in ["/proj/docs/report.pdf", "a/b", "/x", "y", "/a/../b"] {
        let path = p(text);
        let again = path.parent().unwrap().join(&path.file_name().unwrap());
        assert_eq!(again, path);
    }
}

#[test]
fn reading_the_text_of_a_path_gives_the_path_back() {
    for text in ["", "/", "/a", "a", "a/b/c", "/a/../b", "..", "/x/./y//z/", "dépôt/ü"] {
        let path = p(text);
        assert_eq!(p(&path.render()), path);
        assert_eq!(p(&path.render()).render(), path.render());
    }
}

#[test]
fn equality_is_by_components() {
    assert_eq!(p("/a//b/"), p("/a/b"));
    assert_ne!(p("/a/b"), p("a/b"));
    assert_ne!(p("/a/b"), p("/a/c"));
    assert_ne!(p("/a/b"), p("/a/b/c"));
    assert_ne!(p("/a/b/.."), p("/a"));
}
