use precompress::clean::FileProcessError;
use precompress::report::{compress_report, CompressedEntry, SkippedEntry};

fn entry(path: &str, ratio: &str) -> CompressedEntry {
    CompressedEntry { path: path.to_string(), ratio: ratio.to_string() }
}

fn skipped(path: &str) -> SkippedEntry {
    SkippedEntry { path: path.to_string() }
}

fn failed(path: &str, message: &str) -> FileProcessError {
    FileProcessError { path: path.to_string(), message: message.to_string() }
}

#[test]
fn report_lists_every_group_sorted_by_path() {
    let lines = compress_report(
        false,
        "1.25ms",
        vec![entry("site/b.css.gz", "40.0"), entry("site/a.css.br", "33.3")],
        vec![skipped("site/z.js.zz"), skipped("site/c.js")],
        vec![failed("site/y.gz", "denied"), failed("site/x.gz", "full")],
    );
    assert_eq!(
        lines,
        vec![
            "Compressed files:2 Skipped files:2 Errored files:2 Elapsed time:1.25ms",
            "",
            "Compressed files: 2",
            "Ratio\tFile Path",
            "33.3%\tsite/a.css.br",
            "40.0%\tsite/b.css.gz",
            "",
            "Skipped files: 2",
            "site/c.js",
            "site/z.js.zz",
            "",
            "Errored files: 2",
            "File Path\tError Message",
            "site/x.gz\tfull",
            "site/y.gz\tdenied",
        ]
    );
}

#[test]
fn report_of_a_dry_run_names_it() {
    let lines = compress_report(true, "3s", vec![entry("a.txt.gz", "50.0")], vec![], vec![]);
    assert_eq!(
        lines,
        vec![
            "Compressed files:1 Skipped files:0 Errored files:0 Elapsed time:3s",
            "",
            "Files to be compressed (Dry run): 1",
            "Ratio\tFile Path",
            "50.0%\ta.txt.gz",
        ]
    );
}

#[test]
fn report_with_nothing_has_only_the_summary() {
    let lines = compress_report(false, "0ns", vec![], vec![], vec![]);
    assert_eq!(lines, vec!["Compressed files:0 Skipped files:0 Errored files:0 Elapsed time:0ns", ""]);
}

#[test]
fn report_orders_paths_by_component() {
    // Compared as paths, "a" < "a-b" in the first component, so "a/b" is
    // first, though '-' sorts before '/' as a byte.
    let lines = compress_report(false, "1s", vec![], vec![skipped("a-b"), skipped("a/b")], vec![]);
    assert_eq!(&lines[2..], &["", "Skipped files: 2", "a/b", "a-b"]);
}
