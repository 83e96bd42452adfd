use notes::Matcher;
use notes::MatcherSet;

#[test]
fn matcher_test_compile_matcher() {
    assert!(Matcher::new("target").matches("target"));
    assert!(Matcher::new("/target/").matches("target"));
    assert!(Matcher::new("/target/").matches("parent/target"));
    assert!(Matcher::new("/target/").matches("parent/child/target"));
    assert!(Matcher::new("file.txt").matches("file.txt"));
    assert!(Matcher::new("**/file.*").matches("file.txt"));
    assert!(Matcher::new("**/file.*").matches("src/file.rs"));
    assert!(Matcher::new("**/file*").matches("src/file.rs"));
    assert!(Matcher::new("**/file*").matches("src/file"));
    assert!(Matcher::new("**/file*").matches("src/file.txt"));
    assert!(Matcher::new("**/.*").matches("src/.git"));
    assert!(Matcher::new("src/").matches("src/a/b/c/d"));
    assert!(Matcher::new("src/").matches("src/a/b/c/d/e.txt"));
    assert!(!Matcher::new("src/").matches("a/src"));
    assert!(!Matcher::new("src/").matches("a/src/b/c/d/e.txt"));
    assert!(Matcher::new("file.{js,ts}").matches("file.js"));
    assert!(Matcher::new("file.{js,ts}").matches("file.ts"));
    assert!(!Matcher::new("file.{js,ts}").matches("file.rs"));
    assert!(Matcher::new("file.[jt]s").matches("file.js"));
    assert!(Matcher::new("file.[jt]s").matches("file.ts"));
    assert!(!Matcher::new("file.[jt]s").matches("file.rs"));
    assert!(!Matcher::new("file.c+").matches("file.cc"));
    assert!(!Matcher::new("file.(c)").matches("file.c"));
    assert!(Matcher::new("file.(c)").matches("file.(c)"));
    assert!(Matcher::new("file.jpe?g").matches("file.jpg"));
    assert!(Matcher::new("file.jpe?g").matches("file.jpeg"));
}

#[test]
fn matcher_test_matcher_set() {
    let mut set = MatcherSet::new();
    set.add(".git/");
    set.add("tmp/");

    assert!(set.matches(".git"));
    assert!(set.matches(".git/HEAD"));
    assert!(set.matches("tmp"));
    assert!(set.matches("tmp/server.pid"));
    assert!(!set.matches("dir/tmp"));
}

#[test]
fn main_test_compile_matcher() {
    assert!(Matcher::new("target").matches("target"));
    assert!(Matcher::new("/target/").matches("target"));
    assert!(Matcher::new("/target/").matches("parent/target"));
    assert!(Matcher::new("/target/").matches("parent/child/target"));
    assert!(Matcher::new("file.txt").matches("file.txt"));
    assert!(Matcher::new("**/file.*").matches("file.txt"));
    assert!(Matcher::new("**/file.*").matches("src/file.rs"));
    assert!(Matcher::new("**/file*").matches("src/file.rs"));
    assert!(Matcher::new("**/file*").matches("src/file"));
    assert!(Matcher::new("**/file*").matches("src/file.txt"));
    assert!(Matcher::new("**/.*").matches("src/.git"));
    assert!(Matcher::new("src/").matches("src/a/b/c/d"));
    assert!(Matcher::new("src/").matches("src/a/b/c/d/e.txt"));
    assert!(!Matcher::new("src/").matches("a/src"));
    assert!(!Matcher::new("src/").matches("a/src/b/c/d/e.txt"));
    assert!(Matcher::new("file.{js,ts}").matches("file.js"));
    assert!(Matcher::new("file.{js,ts}").matches("file.ts"));
    assert!(!Matcher::new("file.{js,ts}").matches("file.rs"));
    assert!(Matcher::new("file.[jt]s").matches("file.js"));
    assert!(Matcher::new("file.[jt]s").matches("file.ts"));
    assert!(!Matcher::new("file.[jt]s").matches("file.rs"));
    assert!(!Matcher::new("file.c+").matches("file.cc"));
    assert!(!Matcher::new("file.(c)").matches("file.c"));
    assert!(Matcher::new("file.(c)").matches("file.(c)"));
    assert!(Matcher::new("file.jpe?g").matches("file.jpg"));
    assert!(Matcher::new("file.jpe?g").matches("file.jpeg"));
}

#[test]
fn main_test_matcher_set() {
    let mut set = MatcherSet::new();
    set.add(".git/");
    set.add("tmp/");

    assert!(set.matches(".git"));
    assert!(set.matches(".git/HEAD"));
    assert!(set.matches("tmp"));
    assert!(set.matches("tmp/server.pid"));
    assert!(!set.matches("dir/tmp"));
}

#[test]
fn literal_pattern_matches_exactly_its_basename() {
    let m = Matcher::new("file.txt");
    assert!(m.matches("file.txt"));
    assert!(m.matches("deep/nested/dirs/file.txt"));
    assert!(m.matches("a/file.txt"));
    assert!(!m.matches("file.txtx"));
    assert!(!m.matches("afile.txt"));
    assert!(!m.matches("a/other.txt"));
    assert!(!m.matches("file.txt/inside"));
}

#[test]
fn trailing_slash_is_anchored_at_the_root() {
    let m = Matcher::new("dir/");
    assert!(m.matches("dir"));
    assert!(m.matches("dir/x"));
    assert!(m.matches("dir/x/y"));
    assert!(!m.matches("a/dir"));
    assert!(!m.matches("a/dir/x"));
}

#[test]
fn leading_slash_allows_any_depth() {
    let m = Matcher::new("/dir/");
    assert!(m.matches("dir/x"));
    assert!(m.matches("a/dir/x"));
    assert!(m.matches("a/b/dir/x"));
}

#[test]
fn brace_list_with_double_star_selects_extensions() {
    let m = Matcher::new("**/*.{js,ts}");
    assert!(m.matches("a/b.js"));
    assert!(m.matches("a/b.ts"));
    assert!(!m.matches("a/b.rs"));
    assert!(m.matches("b.js"));
}

#[test]
fn invalid_pattern_is_reported() {
    let r = Matcher::try_new("file[");
    assert!(r.is_err());
    match r {
        Err(e) => assert_eq!(e.pattern, "file["),
        Ok(_) => panic!("a pattern with an unclosed class must be refused"),
    }
}

#[test]
fn valid_pattern_is_accepted_by_try_new() {
    let r = Matcher::try_new("src/");
    assert!(r.is_ok());
    match r {
        Ok(m) => {
            assert!(m.matches("src/a"));
            assert_eq!(m.raw_pattern().as_str(), "src/");
        },
        Err(_) => panic!("a plain pattern must compile"),
    }
}

#[test]
fn empty_set_matches_nothing() {
    let set = MatcherSet::new();
    assert!(!set.matches("anything"));
    assert!(!set.matches(""));
    assert!(!set.matches("a/b/c"));
    assert_eq!(set.len(), 0);
}

#[test]
fn insertion_order_does_not_change_answers() {
    let patterns = ["*.log", "tmp/", ".git/", "/build/"];
    let candidates = ["a/b.log", "tmp/x", "dir/tmp", ".git/HEAD", "x/build/y", "src/main.rs"];
    let mut forward = MatcherSet::new();
    for p in patterns {
        forward.add(p);
    }
    let mut backward = MatcherSet::new();
    for p in patterns.iter().rev() {
        backward.add(p);
    }
    for c in candidates {
        assert_eq!(forward.matches(c), backward.matches(c));
    }
}

#[test]
fn compiling_twice_gives_identical_behaviour() {
    let pattern = "**/*.{js,ts}";
    let m1 = Matcher::new(pattern);
    let m2 = Matcher::new(pattern);
    let candidates = ["a/b.js", "a/b.ts", "a/b.rs", "b.js", "", "x/y/z.ts", "js"];
    for c in candidates {
        assert_eq!(m1.matches(c), m2.matches(c));
    }
}

#[test]
fn try_add_reports_and_leaves_the_set_unchanged() {
    let mut set = MatcherSet::new();
    assert!(set.try_add("tmp/").is_ok());
    let r = set.try_add("bad[");
    match r {
        Err(e) => assert_eq!(e.pattern, "bad["),
        Ok(_) => panic!("an invalid pattern must be refused"),
    }
    assert_eq!(set.len(), 1);
    assert!(set.matches("tmp/x"));
    assert!(!set.matches("bad["));
}
