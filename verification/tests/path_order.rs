use std::path::Path;

use precompress::clean::{clean_report, FileProcessError};
use precompress::path_order::path_key_of;

const PATHS: [&str; 24] = [
    "", "a", "a/", "a/.", "./a", ".", "./", "..", "../a", "/", "/a", "//a", "a//b", "a/./b",
    "a/b", "a-b", "a-b.gz", "a/b.gz", "a b", "ab", "a/..", ".a", "é/x", "z",
];

#[test]
fn key_order_is_path_order() {
    for a in PATHS {
        for b in PATHS {
            let by_key = path_key_of(a) <= path_key_of(b);
            let by_path = Path::new(a) <= Path::new(b);
            assert_eq!(by_key, by_path, "{:?} vs {:?}", a, b);
            assert_eq!(path_key_of(a) == path_key_of(b), Path::new(a) == Path::new(b), "{:?} vs {:?}", a, b);
        }
    }
}

#[test]
fn failed_files_listed_in_path_order() {
    let lines = clean_report(
        false,
        vec![],
        vec![
            FileProcessError { message: "e1".to_string(), path: "a-b.gz".to_string() },
            FileProcessError { message: "e2".to_string(), path: "a/b.gz".to_string() },
        ],
    );
    assert_eq!(
        lines,
        vec![
            "No matching files found to remove.",
            "Errored files: 2",
            "File Path\tError Message",
            "a/b.gz\te2",
            "a-b.gz\te1",
        ]
    );
}

#[test]
fn removed_files_stay_in_string_order() {
    let lines = clean_report(true, vec!["a/b.gz".to_string(), "a-b.gz".to_string()], vec![]);
    assert_eq!(lines, vec!["Files to be removed (Dry run): 2", "a-b.gz", "a/b.gz"]);
}
