use precompress::args::{
    choose_command, selected_compress_types, Args, ArgsError, Command, CommandError, RawArgs,
};
use precompress::compress_type::CompressType;

fn raw(paths: &[&str]) -> RawArgs {
    RawArgs {
        path: paths.iter().map(|p| p.to_string()).collect(),
        brotli: 0,
        clean: 0,
        compress: 0,
        compress_min_code_size: 8,
        deflate: 0,
        dry_run: 0,
        gzip: 0,
        max_threads: 10,
        version: 0,
        zstd: 0,
        zstd_level: 10,
        no_md5: false,
        progress_bar: false,
        help: 0,
    }
}

fn validated(r: RawArgs) -> Args {
    let exists = vec![true; r.path.len()];
    match Args::try_from(r, &exists) {
        Ok(a) => a,
        Err(e) => panic!("refused: {}", e.message()),
    }
}

#[test]
fn min_code_size_below_eight_is_refused() {
    let mut r = raw(&["a"]);
    r.compress_min_code_size = 7;
    r.zstd_level = 0;
    let e = Args::try_from(r, &vec![false]).err().unwrap();
    assert!(matches!(e, ArgsError::MinCodeSize));
    assert_eq!(e.message(), "`--compress-min-code-size` must be 8 or greater.");
}

#[test]
fn zstd_level_out_of_range_is_refused() {
    for level in [0u8, 23, 255] {
        let mut r = raw(&["a"]);
        r.zstd_level = level;
        let e = Args::try_from(r, &vec![true]).err().unwrap();
        assert!(matches!(e, ArgsError::ZstdLevel));
        assert_eq!(e.message(), "`--zstd-level` must be between 1 and 22.");
    }
    for level in [1u8, 22] {
        let mut r = raw(&["a"]);
        r.zstd_level = level;
        assert!(Args::try_from(r, &vec![true]).is_ok());
    }
}

#[test]
fn first_missing_path_is_reported() {
    let r = raw(&["here", "gone", "also-gone"]);
    let e = Args::try_from(r, &vec![true, false, false]).err().unwrap();
    match &e {
        ArgsError::MissingPath(p) => assert_eq!(p, "gone"),
        _ => panic!("wrong error"),
    }
    assert_eq!(e.message(), "Path does not exist: gone");
}

#[test]
fn counts_become_switches() {
    let mut r = raw(&["x", "y"]);
    r.brotli = 2;
    r.gzip = 1;
    r.dry_run = 3;
    r.no_md5 = true;
    r.max_threads = 4;
    let a = validated(r);
    assert_eq!(a.paths, vec!["x".to_string(), "y".to_string()]);
    assert!(a.brotli && a.gzip && a.dry_run && a.no_md5);
    assert!(!a.deflate && !a.zstd && !a.compress && !a.clean && !a.help && !a.version);
    assert_eq!(a.max_threads, 4);
    assert_eq!(a.zstd_level, 10);
    assert_eq!(a.compress_min_code_size, 8);
}

#[test]
fn command_precedence() {
    let mut r = raw(&[]);
    r.help = 1;
    r.version = 1;
    assert_eq!(choose_command(&validated(r)), Ok(Command::ShowHelp));

    let mut r = raw(&[]);
    r.version = 1;
    assert_eq!(choose_command(&validated(r)), Ok(Command::ShowVersion));

    let mut r = raw(&[]);
    r.gzip = 1;
    assert_eq!(choose_command(&validated(r)), Err(CommandError::NoPath));

    let mut r = raw(&["a"]);
    r.clean = 1;
    r.gzip = 1;
    assert_eq!(choose_command(&validated(r)), Ok(Command::Clean));

    let mut r = raw(&["a"]);
    r.zstd = 1;
    assert_eq!(choose_command(&validated(r)), Ok(Command::Compress));

    assert_eq!(choose_command(&validated(raw(&["a"]))), Err(CommandError::NoFormat));
}

#[test]
fn command_error_messages() {
    assert_eq!(
        CommandError::NoPath.message(),
        "No path specified. Use -h or --help for usage information."
    );
    assert_eq!(
        CommandError::NoFormat.message(),
        "Specify at least one compression type (brotli, compress, deflate, gzip, or zstd). Use -h or --help for usage information."
    );
}

#[test]
fn selected_formats_in_fixed_order() {
    let mut r = raw(&["a"]);
    r.zstd = 1;
    r.gzip = 1;
    r.deflate = 1;
    r.compress = 1;
    r.brotli = 1;
    r.compress_min_code_size = 9;
    r.zstd_level = 19;
    assert_eq!(
        selected_compress_types(&validated(r)),
        vec![
            CompressType::Brotli,
            CompressType::Lzw(9),
            CompressType::Deflate,
            CompressType::Gzip,
            CompressType::Zstd(19),
        ]
    );
    let mut r = raw(&["a"]);
    r.gzip = 1;
    assert_eq!(selected_compress_types(&validated(r)), vec![CompressType::Gzip]);
    assert!(selected_compress_types(&validated(raw(&["a"]))).is_empty());
}
