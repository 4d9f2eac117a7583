use precompress::compress_type::{CompressError, CompressType};
use precompress::digest::md5_hex;
use precompress::task::{
    compress_task, records_after_write, require_files, task_count, task_outcome, RunError, TaskOutcome,
};

#[test]
fn outcome_keeps_only_smaller_outputs() {
    assert!(matches!(task_outcome(Ok(vec![0; 10]), 10, false), TaskOutcome::NotSmaller));
    assert!(matches!(task_outcome(Ok(vec![0; 11]), 10, true), TaskOutcome::NotSmaller));
    assert!(matches!(
        task_outcome(Ok(vec![0; 9]), 10, true),
        TaskOutcome::DryRun { compressed_len: 9 }
    ));
    match task_outcome(Ok(vec![1, 2, 3]), 10, false) {
        TaskOutcome::Write(v) => assert_eq!(v, vec![1, 2, 3]),
        _ => panic!("expected a write"),
    }
    let err = std::io::Error::new(std::io::ErrorKind::Other, "boom");
    match task_outcome(Err(CompressError::Io(err)), 10, false) {
        TaskOutcome::Failed(CompressError::Io(e)) => assert_eq!(e.to_string(), "boom"),
        _ => panic!("expected a failure"),
    }
}

#[test]
fn tiny_input_is_not_worth_compressing() {
    assert!(matches!(compress_task(CompressType::Gzip, b"hi", false), TaskOutcome::NotSmaller));
    assert!(matches!(compress_task(CompressType::Zstd(3), b"", false), TaskOutcome::NotSmaller));
}

#[test]
fn repetitive_input_is_written() {
    let input = "abcabcabc".repeat(500).into_bytes();
    match compress_task(CompressType::Gzip, &input, false) {
        TaskOutcome::Write(v) => {
            assert!(v.len() < input.len());
            assert_eq!(&v[..2], &[0x1f, 0x8b]);
        }
        _ => panic!("expected a write"),
    }
    match compress_task(CompressType::Brotli, &input, true) {
        TaskOutcome::DryRun { compressed_len } => assert!(compressed_len < input.len()),
        _ => panic!("expected a dry run"),
    }
}

#[test]
fn records_written_after_output() {
    let (writes, written) = records_after_write(true, false, "a.js", "abcd", "a.js.gz", b"xyz");
    assert!(written);
    assert_eq!(writes.len(), 2);
    assert_eq!(writes[0].path, "a.js.md5");
    assert_eq!(writes[0].text, "abcd");
    assert_eq!(writes[1].path, "a.js.gz.md5");
    assert_eq!(writes[1].text, md5_hex(b"xyz"));

    let (writes, written) = records_after_write(true, true, "a.js", "abcd", "a.js.br", b"xyz");
    assert!(written);
    assert_eq!(writes.len(), 1);
    assert_eq!(writes[0].path, "a.js.br.md5");

    let (writes, written) = records_after_write(false, false, "a.js", "", "a.js.br", b"xyz");
    assert!(!written);
    assert!(writes.is_empty());
}

#[test]
fn number_of_tasks() {
    assert_eq!(task_count(7, 3), 21);
    assert_eq!(task_count(0, 5), 0);
}

#[test]
fn a_run_needs_files() {
    assert_eq!(require_files(0), Err(RunError::NoMatchingFiles));
    assert_eq!(require_files(3), Ok(()));
    assert_eq!(
        RunError::NoMatchingFiles.message(),
        "No matching files found. Ensure the directory is accessible and not ignored by .gitignore."
    );
}
