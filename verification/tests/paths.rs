use std::path::Path;

use conductor::paths::{absolute, file_name, join_path, parent_directory, paths_equal};

const SAMPLES: [&str; 40] = [
    "", "/", "//", ".", "./", "..", "../", "a", "a/", "a//", "/a", "/a/", "//a", "a/b", "a//b",
    "a/./b", "a/.", "a/./", "./a", "./.", "././a", "a/..", "a/../b", "../a", "/..", "/.", "/./a",
    "/a/.", "/a/b/c", "/a/b/c/", ".a", "a/.b", "..a", "a/..b", "...", "a/...", "workflow.yaml",
    "/home/tom/conductor/workflow.yaml", "dir/./", "a b/ c",
];

#[test]
fn parents_are_those_of_std() {
    for s in SAMPLES {
        let expected = Path::new(s).parent().map(|p| p.to_str().unwrap().to_string());
        assert_eq!(parent_directory(s), expected, "{s:?}");
    }
}

#[test]
fn file_names_are_those_of_std() {
    for s in SAMPLES {
        let expected = Path::new(s).file_name().map(|p| p.to_str().unwrap().to_string());
        assert_eq!(file_name(s), expected, "{s:?}");
    }
}

#[test]
fn joins_are_those_of_std() {
    for base in SAMPLES {
        assert_eq!(absolute(base), Path::new(base).is_absolute(), "{base:?}");
        for s in SAMPLES {
            let expected = Path::new(base).join(s).to_str().unwrap().to_string();
            assert_eq!(join_path(base, s), expected, "{base:?} {s:?}");
        }
    }
}

#[test]
fn equality_is_that_of_std() {
    for a in SAMPLES {
        for b in SAMPLES {
            assert_eq!(paths_equal(a, b), Path::new(a) == Path::new(b), "{a:?} {b:?}");
        }
    }
}
