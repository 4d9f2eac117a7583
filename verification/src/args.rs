//! Command-line settings: the raw values as parsed, their validation, and
//! the choice of what the program does with them.
use vstd::prelude::*;
use crate::compress_type::CompressType;

verus! {

/// The settings as the command line gives them; each switch counts how
/// often it was given.
pub struct RawArgs {
    /// Paths to process. Multiple paths are accepted.
    pub path: Vec<String>,
    /// Enable Brotli compression.
    pub brotli: u8,
    /// Clean existing compressed files.
    pub clean: u8,
    /// Enable LZW compression.
    pub compress: u8,
    /// Minimum code size for LZW compression. Value must be 8 or greater.
    pub compress_min_code_size: u8,
    /// Enable Deflate compression.
    pub deflate: u8,
    /// Perform a dry run without making changes (for compression or cleaning).
    pub dry_run: u8,
    /// Enable Gzip compression.
    pub gzip: u8,
    /// Set the maximum number of threads for parallel processing.
    pub max_threads: usize,
    /// Display version information.
    pub version: u8,
    /// Enable Zstandard compression.
    pub zstd: u8,
    /// Compression level for Zstandard (range: 1-22).
    pub zstd_level: u8,
    /// Skip generating MD5 checksums and using them to skip unchanged files.
    pub no_md5: bool,
    /// Show a progress bar.
    pub progress_bar: bool,
    /// Display help information.
    pub help: u8,
}

/// Validated settings.
pub struct Args {
    /// Paths to process.
    pub paths: Vec<String>,
    /// Enable Brotli compression.
    pub brotli: bool,
    /// Clean existing compressed files.
    pub clean: bool,
    /// Enable LZW compression.
    pub compress: bool,
    /// Minimum code size for LZW compression.
    pub compress_min_code_size: u8,
    /// Enable Deflate compression.
    pub deflate: bool,
    /// Enable dry run mode.
    pub dry_run: bool,
    /// Enable Gzip compression.
    pub gzip: bool,
    /// Display help information.
    pub help: bool,
    /// Maximum threads for parallel processing.
    pub max_threads: usize,
    /// Display version information.
    pub version: bool,
    /// Enable Zstandard compression.
    pub zstd: bool,
    /// Compression level for Zstandard.
    pub zstd_level: u8,
    /// Do not write or use MD5 records.
    pub no_md5: bool,
    /// Show a progress bar.
    pub progress_bar: bool,
}

/// Why the raw settings were refused.
#[derive(Debug)]
pub enum ArgsError {
    /// The LZW minimum code size is below 8.
    MinCodeSize,
    /// The zstd level is outside 1 to 22.
    ZstdLevel,
    /// A given path does not exist.
    MissingPath(String),
}

/// The message of an argument error.
pub open spec fn args_error_message(e: ArgsError) -> Seq<char> {
    match e {
        ArgsError::MinCodeSize => "`--compress-min-code-size` must be 8 or greater."@,
        ArgsError::ZstdLevel => "`--zstd-level` must be between 1 and 22."@,
        ArgsError::MissingPath(p) => "Path does not exist: "@ + p@,
    }
}

impl ArgsError {
    /// The message shown for this error.
    pub fn message(&self) -> (m: String)
        ensures
            m@ == args_error_message(*self),
    {
        match self {
            ArgsError::MinCodeSize => String::from_str("`--compress-min-code-size` must be 8 or greater."),
            ArgsError::ZstdLevel => String::from_str("`--zstd-level` must be between 1 and 22."),
            ArgsError::MissingPath(p) => {
                let mut m = String::from_str("Path does not exist: ");
                m.append(p.as_str());
                m
            },
        }
    }
}

/// The validated settings made of raw ones whose paths all exist.
pub open spec fn validated(value: RawArgs, a: Args) -> bool {
    &&& a.paths@ == value.path@
    &&& a.brotli == (value.brotli > 0)
    &&& a.clean == (value.clean > 0)
    &&& a.compress == (value.compress > 0)
    &&& a.compress_min_code_size == value.compress_min_code_size
    &&& a.deflate == (value.deflate > 0)
    &&& a.dry_run == (value.dry_run > 0)
    &&& a.gzip == (value.gzip > 0)
    &&& a.help == (value.help > 0)
    &&& a.max_threads == value.max_threads
    &&& a.version == (value.version > 0)
    &&& a.zstd == (value.zstd > 0)
    &&& a.zstd_level == value.zstd_level
    &&& a.no_md5 == value.no_md5
    &&& a.progress_bar == value.progress_bar
}

impl Args {
    /// Validates raw settings. `path_exists[i]` tells whether `value.path[i]`
    /// exists. The checks come in this order: the LZW minimum code size must
    /// be at least 8, the zstd level between 1 and 22, and every path must
    /// exist (the first missing one is reported). Switches given at least
    /// once are on.
    pub fn try_from(value: RawArgs, path_exists: &Vec<bool>) -> (r: Result<Args, ArgsError>)
        requires
            path_exists.len() == value.path.len(),
        ensures
            value.compress_min_code_size < 8 ==> r matches Err(ArgsError::MinCodeSize),
            value.compress_min_code_size >= 8 && (value.zstd_level < 1 || value.zstd_level > 22)
                ==> r matches Err(ArgsError::ZstdLevel),
            value.compress_min_code_size >= 8 && 1 <= value.zstd_level <= 22 ==> match r {
                Ok(a) => validated(value, a) && forall|i: int|
                    0 <= i < path_exists.len() ==> path_exists@[i],
                Err(ArgsError::MissingPath(p)) => exists|i: int|
                    0 <= i < path_exists.len() && !path_exists@[i] && p@ == value.path@[i]@
                        && forall|j: int| 0 <= j < i ==> path_exists@[j],
                Err(_) => false,
            },
    {
        if value.compress_min_code_size < 8 {
            return Err(ArgsError::MinCodeSize);
        }
        if value.zstd_level < 1 || value.zstd_level > 22 {
            return Err(ArgsError::ZstdLevel);
        }
        let mut i: usize = 0;
        while i < value.path.len()
            invariant
                path_exists.len() == value.path.len(),
                value.compress_min_code_size >= 8,
                1 <= value.zstd_level <= 22,
                i <= value.path.len(),
                forall|j: int| 0 <= j < i ==> path_exists@[j],
            decreases value.path.len() - i,
        {
            if !path_exists[i] {
                return Err(ArgsError::MissingPath(value.path[i].clone()));
            }
            i = i + 1;
        }
        Ok(Args {
            paths: value.path,
            brotli: value.brotli > 0,
            clean: value.clean > 0,
            compress: value.compress > 0,
            compress_min_code_size: value.compress_min_code_size,
            deflate: value.deflate > 0,
            dry_run: value.dry_run > 0,
            gzip: value.gzip > 0,
            help: value.help > 0,
            max_threads: value.max_threads,
            version: value.version > 0,
            zstd: value.zstd > 0,
            zstd_level: value.zstd_level,
            no_md5: value.no_md5,
            progress_bar: value.progress_bar,
        })
    }
}

/// What the program does.
#[derive(PartialEq, Eq, Structural, Clone, Copy, Debug)]
pub enum Command {
    ShowHelp,
    ShowVersion,
    Clean,
    Compress,
}

/// Why there is nothing to do.
#[derive(PartialEq, Eq, Structural, Clone, Copy, Debug)]
pub enum CommandError {
    /// No path was given.
    NoPath,
    /// Neither cleaning nor any compression format was asked for.
    NoFormat,
}

/// Whether at least one compression format is on.
pub open spec fn any_format(a: Args) -> bool {
    a.brotli || a.compress || a.deflate || a.gzip || a.zstd
}

/// The command for the settings, in order of precedence: help, version,
/// then (with at least one path) cleaning, then compressing.
pub open spec fn spec_command(a: Args) -> Result<Command, CommandError> {
    if a.help {
        Ok(Command::ShowHelp)
    } else if a.version {
        Ok(Command::ShowVersion)
    } else if a.paths.len() == 0 {
        Err(CommandError::NoPath)
    } else if a.clean {
        Ok(Command::Clean)
    } else if any_format(a) {
        Ok(Command::Compress)
    } else {
        Err(CommandError::NoFormat)
    }
}

/// Chooses what the program does with validated settings.
pub fn choose_command(args: &Args) -> (r: Result<Command, CommandError>)
    ensures
        r == spec_command(*args),
{
    if args.help {
        Ok(Command::ShowHelp)
    } else if args.version {
        Ok(Command::ShowVersion)
    } else if args.paths.len() == 0 {
        Err(CommandError::NoPath)
    } else if args.clean {
        Ok(Command::Clean)
    } else if args.brotli || args.compress || args.deflate || args.gzip || args.zstd {
        Ok(Command::Compress)
    } else {
        Err(CommandError::NoFormat)
    }
}

/// The message of a command error.
pub open spec fn command_error_message(e: CommandError) -> Seq<char> {
    match e {
        CommandError::NoPath => "No path specified. Use -h or --help for usage information."@,
        CommandError::NoFormat => "Specify at least one compression type (brotli, compress, deflate, gzip, or zstd). Use -h or --help for usage information."@,
    }
}

impl CommandError {
    /// The message shown for this error.
    pub fn message(&self) -> (m: String)
        ensures
            m@ == command_error_message(*self),
    {
        match self {
            CommandError::NoPath => String::from_str("No path specified. Use -h or --help for usage information."),
            CommandError::NoFormat => String::from_str("Specify at least one compression type (brotli, compress, deflate, gzip, or zstd). Use -h or --help for usage information."),
        }
    }
}

/// The formats asked for, in the order brotli, LZW, deflate, gzip, zstd.
pub open spec fn spec_selected(a: Args) -> Seq<CompressType> {
    (if a.brotli { seq![CompressType::Brotli] } else { seq![] })
    + (if a.compress { seq![CompressType::Lzw(a.compress_min_code_size)] } else { seq![] })
    + (if a.deflate { seq![CompressType::Deflate] } else { seq![] })
    + (if a.gzip { seq![CompressType::Gzip] } else { seq![] })
    + (if a.zstd { seq![CompressType::Zstd(a.zstd_level as i32)] } else { seq![] })
}

/// The formats to produce for each file.
pub fn selected_compress_types(args: &Args) -> (types: Vec<CompressType>)
    ensures
        types@ == spec_selected(*args),
{
    let mut types: Vec<CompressType> = Vec::new();
    if args.brotli {
        types.push(CompressType::Brotli);
    }
    if args.compress {
        types.push(CompressType::Lzw(args.compress_min_code_size));
    }
    if args.deflate {
        types.push(CompressType::Deflate);
    }
    if args.gzip {
        types.push(CompressType::Gzip);
    }
    if args.zstd {
        types.push(CompressType::Zstd(args.zstd_level as i32));
    }
    assert(types@ =~= spec_selected(*args));
    types
}

/// A compression command always has formats to produce: each format asked
/// for is in the list once, and no other.
pub proof fn lemma_compress_has_formats(a: Args)
    requires
        spec_command(a) == Ok::<Command, CommandError>(Command::Compress),
    ensures
        spec_selected(a).len() > 0,
        spec_selected(a).len() <= 5,
        a.brotli <==> spec_selected(a).contains(CompressType::Brotli),
        a.deflate <==> spec_selected(a).contains(CompressType::Deflate),
        a.gzip <==> spec_selected(a).contains(CompressType::Gzip),
        a.compress <==> spec_selected(a).contains(CompressType::Lzw(a.compress_min_code_size)),
        a.zstd <==> spec_selected(a).contains(CompressType::Zstd(a.zstd_level as i32)),
{
    let s = spec_selected(a);
    if a.brotli { assert(s[0] == CompressType::Brotli); }
    if a.deflate {
        let k = (if a.brotli { 1int } else { 0 }) + (if a.compress { 1int } else { 0 });
        assert(s[k] == CompressType::Deflate);
    }
    if a.gzip {
        let k = (if a.brotli { 1int } else { 0 }) + (if a.compress { 1int } else { 0 }) + (if a.deflate { 1int } else { 0 });
        assert(s[k] == CompressType::Gzip);
    }
    if a.compress {
        let k = (if a.brotli { 1int } else { 0 });
        assert(s[k] == CompressType::Lzw(a.compress_min_code_size));
    }
    if a.zstd {
        let k = s.len() - 1;
        assert(s[k] == CompressType::Zstd(a.zstd_level as i32));
    }
}


/// How the command follows from the settings: help wins over everything,
/// then version; without a path nothing can be done; with a path, the clean
/// switch cleans whatever formats are on; otherwise any format compresses,
/// and with none there is nothing to do.
pub proof fn lemma_command_choice(a: Args)
    ensures
        a.help ==> spec_command(a) == Ok::<Command, CommandError>(Command::ShowHelp),
        !a.help && a.version ==> spec_command(a) == Ok::<Command, CommandError>(Command::ShowVersion),
        !a.help && !a.version && a.paths.len() == 0 ==> spec_command(a) == Err::<Command, CommandError>(
            CommandError::NoPath,
        ),
        !a.help && !a.version && a.paths.len() > 0 && a.clean ==> spec_command(a) == Ok::<
            Command,
            CommandError,
        >(Command::Clean),
        !a.help && !a.version && a.paths.len() > 0 && !a.clean && (a.brotli || a.compress || a.deflate
            || a.gzip || a.zstd) ==> spec_command(a) == Ok::<Command, CommandError>(Command::Compress),
        !a.help && !a.version && a.paths.len() > 0 && !a.clean && !a.brotli && !a.compress && !a.deflate
            && !a.gzip && !a.zstd ==> spec_command(a) == Err::<Command, CommandError>(CommandError::NoFormat),
{
}

} // verus!
