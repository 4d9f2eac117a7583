use precompress::clean::{clean_report, FileProcessError};
use precompress::sorting::sort_by_key;

fn err(path: &str, message: &str) -> FileProcessError {
    FileProcessError { message: message.to_string(), path: path.to_string() }
}

#[test]
fn nothing_removed() {
    assert_eq!(
        clean_report(false, vec![], vec![]),
        vec!["No matching files found to remove.".to_string()]
    );
}

#[test]
fn removed_files_sorted_under_count() {
    let lines = clean_report(
        false,
        vec!["b.gz".to_string(), "a.br".to_string(), "B.zst".to_string()],
        vec![],
    );
    assert_eq!(lines, vec!["Removed files: 3", "B.zst", "a.br", "b.gz"]);
}

#[test]
fn dry_run_heading() {
    let lines = clean_report(true, vec!["x.gz".to_string()], vec![]);
    assert_eq!(lines, vec!["Files to be removed (Dry run): 1", "x.gz"]);
}

#[test]
fn errors_sorted_by_path() {
    let lines = clean_report(
        false,
        vec![],
        vec![err("z.gz", "denied"), err("m.br", "busy")],
    );
    assert_eq!(
        lines,
        vec![
            "No matching files found to remove.",
            "Errored files: 2",
            "File Path\tError Message",
            "m.br\tbusy",
            "z.gz\tdenied",
        ]
    );
}

#[test]
fn sort_is_stable_and_byte_ordered() {
    let sorted = sort_by_key(vec![
        err("b", "1"),
        err("a", "2"),
        err("b", "3"),
        err("ab", "4"),
        err("a", "5"),
        err("é", "6"),
        err("z", "7"),
    ]);
    let got: Vec<(String, String)> =
        sorted.into_iter().map(|e| (e.path, e.message)).collect();
    let want: Vec<(String, String)> = [("a", "2"), ("a", "5"), ("ab", "4"), ("b", "1"), ("b", "3"), ("z", "7"), ("é", "6")]
        .iter()
        .map(|(p, m)| (p.to_string(), m.to_string()))
        .collect();
    assert_eq!(got, want);
}

#[test]
fn sort_matches_std_sort() {
    let words: Vec<String> = ["pear", "Apple", "apple", "", "app", "äpfel", "zoo", "app"]
        .iter()
        .map(|s| s.to_string())
        .collect();
    let mut expected = words.clone();
    expected.sort();
    assert_eq!(sort_by_key(words), expected);
}
