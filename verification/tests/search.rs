use precompress::compress_type::CompressType;
use precompress::globs::GlobList;
use precompress::pattern::PathPattern;
use precompress::search::{
    search_files, walk_root, Listing, SearchError, WalkRoot, COMPRESSED_PATTERN, COMPRESSIBLE_PATTERN,
};

fn globs(locations: &[&str]) -> GlobList {
    match GlobList::new(&locations.iter().map(|s| s.to_string()).collect()) {
        Ok(l) => l,
        Err(_) => panic!("globs refused"),
    }
}

fn pattern(p: &str) -> PathPattern {
    match PathPattern::new(p) {
        Ok(p) => p,
        Err(_) => panic!("pattern refused"),
    }
}

#[test]
fn compressible_files() {
    let p = pattern(COMPRESSIBLE_PATTERN);
    for name in ["a.css", "dir/INDEX.HTML", "x.htm", "m.mjs", "data.json", "r.yaml", "w.wasm", "n.txt"] {
        assert!(p.is_match(name), "{}", name);
    }
    for name in ["a.png", "a.css.gz", "a.jsx", "css", "a.css "] {
        assert!(!p.is_match(name), "{}", name);
    }
}

#[test]
fn cleaning_matches_every_output_name() {
    let p = pattern(COMPRESSED_PATTERN);
    for t in [
        CompressType::Brotli,
        CompressType::Deflate,
        CompressType::Gzip,
        CompressType::Lzw(8),
        CompressType::Zstd(3),
    ] {
        assert!(p.is_match(&t.get_filename("site/a.css")));
    }
    assert!(p.is_match("A.GZ"));
    assert!(!p.is_match("a.css"));
    assert!(!p.is_match("a.css.md5"));
}

#[test]
fn invalid_pattern_is_refused() {
    assert!(matches!(PathPattern::new("a("), Err(SearchError::Regex(_))));
}

#[test]
fn globs_match_paths() {
    let l = match GlobList::new(&vec!["*.css".to_string(), "src/**/*.js".to_string()]) {
        Ok(l) => l,
        Err(_) => panic!("globs refused"),
    };
    assert!(l.is_match("a.css"));
    assert!(l.is_match("src/x/y.js"));
    assert!(!l.is_match("a.js"));
    assert!(matches!(GlobList::new(&vec!["a[".to_string()]), Err(SearchError::Glob(_))));
}

#[test]
fn walk_roots() {
    assert_eq!(walk_root(true, false), WalkRoot::Location);
    assert_eq!(walk_root(false, true), WalkRoot::ParentOfLocation);
    assert_eq!(walk_root(false, false), WalkRoot::CurrentDirectory);
}

fn some(v: &[&str]) -> Vec<Option<String>> {
    v.iter().map(|s| Some(s.to_string())).collect()
}

#[test]
fn search_keeps_matching_files_in_order() {
    let p = pattern(COMPRESSIBLE_PATTERN);
    let locations = globs(&["site", "*.md"]);
    let mut second = some(&["./README.md", "./notes.txt", "./x.md.gz"]);
    second.push(None);
    let listings = vec![
        Listing { is_dir: true, files: some(&["site/b.css", "site/a.png", "site/a.js"]) },
        Listing { is_dir: false, files: second },
    ];
    let files = search_files(&locations, &p, &listings);
    assert_eq!(files, vec!["site/b.css", "site/a.js", "./README.md"]);
}

#[test]
fn search_with_bad_glob_fails() {
    assert!(matches!(GlobList::new(&vec!["site".to_string(), "a[".to_string()]), Err(SearchError::Glob(_))));
}

#[test]
fn search_with_no_locations_finds_nothing() {
    let p = pattern(".*");
    let files = search_files(&globs(&[]), &p, &vec![]);
    assert!(files.is_empty());
}

#[test]
fn directory_location_keeps_every_matching_file() {
    let p = pattern(r"\.txt$");
    let listings = vec![Listing { is_dir: true, files: some(&["d/a.txt", "d/b.txt", "d/c.css"]) }];
    assert_eq!(search_files(&globs(&["d"]), &p, &listings), vec!["d/a.txt", "d/b.txt"]);
}

#[test]
fn file_location_is_filtered_by_its_glob() {
    let p = pattern(r"\.txt$");
    let listings = vec![Listing { is_dir: false, files: some(&["d/a.txt", "d/b.txt", "d/c.css"]) }];
    assert_eq!(search_files(&globs(&["d/a.txt"]), &p, &listings), vec!["d/a.txt"]);
}
