use std::collections::HashMap;

use precompress::compress_type::CompressType;
use precompress::digest::md5_hex;
use precompress::freshness::{record_name_of, FileCheck, FileDecision, Observation, Probe};
use precompress::task::{compress_task, records_after_write, TaskOutcome};

/// Runs a check against an in-memory set of files and returns the
/// decision and the probes made.
fn run(
    files: &HashMap<String, Vec<u8>>,
    original: &str,
    types: Vec<CompressType>,
    use_records: bool,
) -> (Vec<CompressType>, bool, Vec<String>) {
    let source = files.get(original).unwrap().clone();
    let mut check = FileCheck::new(original, &source, types, use_records);
    let mut probes = Vec::new();
    loop {
        match check.probe() {
            Probe::Done => break,
            Probe::Exists(p) => {
                probes.push(format!("exists {}", p));
                check.observe(Observation::Exists(files.contains_key(&p)));
            }
            Probe::ReadText(p) => {
                probes.push(format!("text {}", p));
                let t = files.get(&p).map(|b| String::from_utf8(b.clone()).unwrap());
                check.observe(Observation::Text(t));
            }
            Probe::ReadBytes(p) => {
                probes.push(format!("bytes {}", p));
                check.observe(Observation::Bytes(files.get(&p).cloned()));
            }
        }
    }
    match check.decision() {
        FileDecision::Skip => (vec![], true, probes),
        FileDecision::Compress(v) => (v.clone(), false, probes),
    }
}

fn put(files: &mut HashMap<String, Vec<u8>>, name: &str, content: &[u8]) {
    files.insert(name.to_string(), content.to_vec());
}

fn up_to_date(files: &mut HashMap<String, Vec<u8>>, original: &str, types: &[CompressType]) {
    let src = files.get(original).unwrap().clone();
    put(files, &record_name_of(original), md5_hex(&src).as_bytes());
    for t in types {
        let out = t.get_filename(original);
        let data = format!("compressed {:?}", t).into_bytes();
        put(files, &record_name_of(&out), md5_hex(&data).as_bytes());
        put(files, &out, &data);
    }
}

const TYPES: [CompressType; 3] = [CompressType::Brotli, CompressType::Gzip, CompressType::Zstd(3)];

#[test]
fn without_records_every_format_is_made() {
    let mut files = HashMap::new();
    put(&mut files, "a.css", b"body{}");
    let (types, skip, probes) = run(&files, "a.css", TYPES.to_vec(), false);
    assert!(!skip);
    assert_eq!(types, TYPES.to_vec());
    assert!(probes.is_empty());
}

#[test]
fn missing_original_record_makes_every_format() {
    let mut files = HashMap::new();
    put(&mut files, "a.css", b"body{}");
    let (types, skip, probes) = run(&files, "a.css", TYPES.to_vec(), true);
    assert!(!skip);
    assert_eq!(types, TYPES.to_vec());
    assert_eq!(probes, vec!["text a.css.md5".to_string()]);
}

#[test]
fn unchanged_file_is_skipped() {
    let mut files = HashMap::new();
    put(&mut files, "a.css", b"body{}");
    up_to_date(&mut files, "a.css", &TYPES);
    let (types, skip, probes) = run(&files, "a.css", TYPES.to_vec(), true);
    assert!(skip);
    assert!(types.is_empty());
    assert_eq!(probes.len(), 1 + 3 * TYPES.len());
    assert_eq!(probes[1], "exists a.css.br");
    assert_eq!(probes[2], "text a.css.br.md5");
    assert_eq!(probes[3], "bytes a.css.br");
}

#[test]
fn every_stale_output_is_remade() {
    let mut files = HashMap::new();
    put(&mut files, "a.css", b"body{}");
    up_to_date(&mut files, "a.css", &TYPES);
    // The gzip output was tampered with and the zstd one removed.
    put(&mut files, "a.css.gz", b"garbage");
    files.remove("a.css.zst");
    let (types, skip, probes) = run(&files, "a.css", TYPES.to_vec(), true);
    assert!(!skip);
    assert_eq!(types, vec![CompressType::Gzip, CompressType::Zstd(3)]);
    assert_eq!(probes.last().unwrap(), "exists a.css.zst");
}

#[test]
fn second_run_after_making_outputs_skips() {
    let mut files = HashMap::new();
    put(&mut files, "a.css", b"body{}");
    put(&mut files, "a.css.md5", md5_hex(b"body{}").as_bytes());
    let (types, skip, _) = run(&files, "a.css", TYPES.to_vec(), true);
    assert!(!skip);
    assert_eq!(types, TYPES.to_vec());
    up_to_date(&mut files, "a.css", &types);
    let (types, skip, _) = run(&files, "a.css", TYPES.to_vec(), true);
    assert!(skip);
    assert!(types.is_empty());
}

#[test]
fn missing_output_record_is_stale() {
    let mut files = HashMap::new();
    put(&mut files, "a.css", b"body{}");
    up_to_date(&mut files, "a.css", &TYPES);
    files.remove("a.css.br.md5");
    let (types, skip, probes) = run(&files, "a.css", TYPES.to_vec(), true);
    assert!(!skip);
    assert_eq!(types, vec![CompressType::Brotli]);
    assert_eq!(probes[2], "text a.css.br.md5");
    assert_eq!(probes.len(), 1 + 2 + 3 + 3);
}

#[test]
fn changed_original_is_compressed_again() {
    let mut files = HashMap::new();
    put(&mut files, "a.css", b"body{}");
    up_to_date(&mut files, "a.css", &TYPES);
    put(&mut files, "a.css", b"body{color:red}");
    let (types, skip, probes) = run(&files, "a.css", TYPES.to_vec(), true);
    assert!(!skip);
    assert_eq!(types, TYPES.to_vec());
    assert_eq!(probes, vec!["text a.css.md5".to_string()]);
}

#[test]
fn source_checksum_is_kept() {
    let check = FileCheck::new("a", b"abc", vec![CompressType::Gzip], true);
    assert_eq!(check.source_md5(), "900150983cd24fb0d6963f7d28e17f72");
    let check = FileCheck::new("a", b"abc", vec![CompressType::Gzip], false);
    assert_eq!(check.source_md5(), "");
    assert!(check.is_decided());
}

#[test]
fn record_names() {
    assert_eq!(record_name_of("dir/a.js"), "dir/a.js.md5");
    assert_eq!(record_name_of("dir/a.js.br"), "dir/a.js.br.md5");
}

#[test]
fn records_written_by_a_run_make_the_next_run_skip() {
    let source = "body { color: red; } ".repeat(50).into_bytes();
    let mut files = HashMap::new();
    put(&mut files, "site/a.css", &source);
    let (types, skip, _) = run(&files, "site/a.css", TYPES.to_vec(), true);
    assert!(!skip);
    let md5 = md5_hex(&source);
    let mut original_written = false;
    for t in types {
        let data = match compress_task(t, &source, false) {
            TaskOutcome::Write(data) => data,
            _ => panic!("expected an output"),
        };
        let out = t.get_filename("site/a.css");
        put(&mut files, &out, &data);
        let (writes, now_written) = records_after_write(true, original_written, "site/a.css", &md5, &out, &data);
        original_written = now_written;
        for w in writes {
            put(&mut files, &w.path, w.text.as_bytes());
        }
    }
    let (types, skip, _) = run(&files, "site/a.css", TYPES.to_vec(), true);
    assert!(skip);
    assert!(types.is_empty());
}
