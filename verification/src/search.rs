//! Choosing the files to process among those found under the given
//! locations.
//!
//! A location is a directory, a file, or a glob pattern. Under a directory
//! every regular file is a candidate; otherwise the candidates are the
//! regular files under the file's directory (or under the current directory
//! for a pattern) that match one of the locations taken as globs. A
//! candidate is kept when its path is valid Unicode and matches the regular
//! expression of the run. Walking the directories is left to the caller,
//! which hands over what it found, after compiling the locations as globs
//! ([`GlobList::new`]) and the expression ([`PathPattern::new`]).
use vstd::prelude::*;
use crate::pattern::{PathPattern, regex_accepted, regex_match, compile_pattern, pattern_is_match};
use crate::globs::{
    GlobList, glob_accepted, globs_compile, matches_any, new_builder, add_glob, build_globs,
    glob_list_is_match,
};

verus! {

/// The files that compression applies to: text formats and WebAssembly,
/// told by their extension, in any letter case.
pub const COMPRESSIBLE_PATTERN: &'static str = r#"(?i).*\.(css|csv|tsv|es|html?|sgml?|xht(ml)?|m?js|json(ml)?|map|mathml|md|markdown|svg|te?xt|conf|def|list|log|in|wasm|xml|xslt?|ya?ml)$"#;

/// The files that cleaning removes: outputs of the compression formats.
pub const COMPRESSED_PATTERN: &'static str = r#"(?i)\.(br|zz|gz|Z|zst)$"#;

/// Why a search could not be made.
#[derive(Debug)]
pub enum SearchError {
    /// The regular expression was refused.
    Regex(lazy_regex::regex::Error),
    /// A location was refused as a glob, or the globs could not be compiled.
    Glob(globset::Error),
}

impl PathPattern {
    /// Compiles the regular expression `pattern`; it succeeds exactly when
    /// the `regex` crate accepts the pattern.
    pub fn new(pattern: &str) -> (r: Result<PathPattern, SearchError>)
        ensures
            r is Ok <==> regex_accepted(pattern@),
            r matches Ok(p) ==> p.spec_source() == pattern@,
            r matches Err(e) ==> e is Regex,
    {
        match compile_pattern(pattern) {
            Ok(p) => Ok(p),
            Err(e) => Err(SearchError::Regex(e)),
        }
    }

    /// Whether the expression matches `text`.
    pub fn is_match(&self, text: &str) -> (b: bool)
        ensures
            b == regex_match(self.spec_source(), text@),
    {
        pattern_is_match(self, text)
    }
}

impl GlobList {
    /// Compiles `globs` as one set. It succeeds exactly when `globset`
    /// accepts each glob and builds the set of them; always for no glob.
    pub fn new(globs: &Vec<String>) -> (r: Result<GlobList, SearchError>)
        ensures
            r is Ok <==> globs_compile(globs@.map_values(|g: String| g@)),
            globs@.len() == 0 ==> r is Ok,
            r matches Ok(l) ==> l.spec_globs() == globs@.map_values(|g: String| g@),
            r matches Err(e) ==> e is Glob,
    {
        let mut builder = new_builder();
        let ghost views = globs@.map_values(|g: String| g@);
        let mut i: usize = 0;
        while i < globs.len()
            invariant
                i <= globs@.len(),
                views == globs@.map_values(|g: String| g@),
                builder.spec_globs() == views.take(i as int),
                forall|j: int| 0 <= j < i ==> glob_accepted(#[trigger] views[j]),
            decreases globs@.len() - i,
        {
            match add_glob(&mut builder, globs[i].as_str()) {
                Ok(()) => {},
                Err(e) => {
                    assert(!glob_accepted(views[i as int]));
                    return Err(SearchError::Glob(e));
                },
            }
            assert(views.take(i + 1) =~= views.take(i as int).push(views[i as int]));
            i = i + 1;
        }
        assert(views.take(globs@.len() as int) =~= views);
        match build_globs(&builder) {
            Ok(l) => Ok(l),
            Err(e) => Err(SearchError::Glob(e)),
        }
    }

    /// Whether any of the globs matches `path`.
    pub fn is_match(&self, path: &str) -> (b: bool)
        ensures
            b == matches_any(self.spec_globs(), path@),
    {
        glob_list_is_match(self, path)
    }
}

/// Where to look for the files of a location.
#[derive(PartialEq, Eq, Structural, Clone, Copy, Debug)]
pub enum WalkRoot {
    /// The location is a directory: walk it.
    Location,
    /// The location is a file: walk the directory that holds it (or the
    /// location itself when it has none).
    ParentOfLocation,
    /// The location is neither: walk the current directory.
    CurrentDirectory,
}

/// Where to look for the files of a location that is (or is not) a
/// directory or a file.
pub fn walk_root(is_dir: bool, is_file: bool) -> (w: WalkRoot)
    ensures
        w == (if is_dir {
            WalkRoot::Location
        } else if is_file {
            WalkRoot::ParentOfLocation
        } else {
            WalkRoot::CurrentDirectory
        }),
{
    if is_dir {
        WalkRoot::Location
    } else if is_file {
        WalkRoot::ParentOfLocation
    } else {
        WalkRoot::CurrentDirectory
    }
}

/// The regular files found for one location, in the order of the walk:
/// each as its path text, or `None` when the path is not valid Unicode.
pub struct Listing {
    /// Whether the location is a directory.
    pub is_dir: bool,
    pub files: Vec<Option<String>>,
}

/// The model of a [`Listing`].
pub struct ListingModel {
    pub is_dir: bool,
    pub files: Seq<Option<Seq<char>>>,
}

impl View for Listing {
    type V = ListingModel;

    open spec fn view(&self) -> ListingModel {
        ListingModel {
            is_dir: self.is_dir,
            files: self.files@.map_values(
                |f: Option<String>|
                    match f {
                        Some(s) => Some(s@),
                        None => None,
                    },
            ),
        }
    }
}

/// Whether a found file is kept: its path is valid Unicode, it lies under
/// a directory location or matches one of the globs, and the expression
/// matches it.
pub open spec fn kept(globs: Seq<Seq<char>>, pattern: Seq<char>, is_dir: bool, file: Option<Seq<char>>) -> bool {
    match file {
        Some(path) => (is_dir || matches_any(globs, path)) && regex_match(pattern, path),
        None => false,
    }
}

/// The kept files of the listings, in order.
pub open spec fn found(globs: Seq<Seq<char>>, pattern: Seq<char>, listings: Seq<ListingModel>) -> Seq<Seq<char>>
    decreases listings.len(),
{
    if listings.len() == 0 {
        seq![]
    } else {
        let l = listings.last();
        found(globs, pattern, listings.drop_last()) + l.files.filter(
            |f: Option<Seq<char>>| kept(globs, pattern, l.is_dir, f),
        ).map_values(|f: Option<Seq<char>>| f->0)
    }
}

fn kept_of_listing(globs: &GlobList, pattern: &PathPattern, listing: &Listing, out: &mut Vec<String>)
    ensures
        final(out)@.map_values(|s: String| s@) == old(out)@.map_values(|s: String| s@) + listing@.files.filter(
            |f: Option<Seq<char>>| kept(globs.spec_globs(), pattern.spec_source(), listing.is_dir, f),
        ).map_values(|f: Option<Seq<char>>| f->0),
{
    let ghost start = out@.map_values(|s: String| s@);
    let ghost files = listing@.files;
    let ghost pred = |f: Option<Seq<char>>| kept(globs.spec_globs(), pattern.spec_source(), listing.is_dir, f);
    let mut j: usize = 0;
    while j < listing.files.len()
        invariant
            j <= listing.files@.len(),
            files == listing@.files,
            files.len() == listing.files@.len(),
            pred == (|f: Option<Seq<char>>| kept(globs.spec_globs(), pattern.spec_source(), listing.is_dir, f)),
            out@.map_values(|s: String| s@) == start + files.take(j as int).filter(pred).map_values(
                |f: Option<Seq<char>>| f->0,
            ),
        decreases listing.files@.len() - j,
    {
        let ghost prev = out@;
        proof {
            assert(files.take(j + 1) =~= files.take(j as int).push(files[j as int]));
            files.take(j as int).lemma_filter_push(files[j as int], pred);
        }
        match &listing.files[j] {
            Some(path) => {
                assert(files[j as int] == Some(path@));
                if (listing.is_dir || globs.is_match(path.as_str())) && pattern.is_match(path.as_str()) {
                    out.push(path.clone());
                    assert(out@.map_values(|s: String| s@) =~= prev.map_values(|s: String| s@).push(path@));
                } else {
                    assert(!pred(files[j as int]));
                }
            },
            None => {
                assert(files[j as int] == None::<Seq<char>>);
            },
        }
        j = j + 1;
    }
    assert(files.take(files.len() as int) =~= files);
}

/// The files to process: the kept files of each location's listing, in the
/// order of the locations and of each walk. `listings[i]` holds what was
/// found for the `i`-th location, and `globs` are the locations compiled as
/// globs ([`GlobList::new`], which decides whether the search can be made).
pub fn search_files(globs: &GlobList, pattern: &PathPattern, listings: &Vec<Listing>) -> (files: Vec<String>)
    ensures
        files@.map_values(|s: String| s@) == found(
            globs.spec_globs(),
            pattern.spec_source(),
            listings@.map_values(|l: Listing| l@),
        ),
        listings@.len() == 0 ==> files@.len() == 0,
{
    let ghost g = globs.spec_globs();
    let ghost ls = listings@.map_values(|l: Listing| l@);
    let mut files: Vec<String> = Vec::new();
    let mut i: usize = 0;
    while i < listings.len()
        invariant
            i <= listings@.len(),
            g == globs.spec_globs(),
            ls == listings@.map_values(|l: Listing| l@),
            files@.map_values(|s: String| s@) == found(g, pattern.spec_source(), ls.take(i as int)),
        decreases listings@.len() - i,
    {
        kept_of_listing(globs, pattern, &listings[i], &mut files);
        proof {
            let t = ls.take(i + 1);
            assert(t.drop_last() =~= ls.take(i as int));
            assert(t.last() == listings@[i as int]@);
        }
        i = i + 1;
    }
    assert(ls.take(ls.len() as int) =~= ls);
    files
}

/// Every file that a search returns matches the expression of the run and
/// was found for some location: under a directory location, or else it
/// matches one of the locations taken as globs.
pub proof fn lemma_found_files_match(globs: Seq<Seq<char>>, pattern: Seq<char>, listings: Seq<ListingModel>)
    ensures
        forall|i: int|
            0 <= i < found(globs, pattern, listings).len() ==> {
                let p = #[trigger] found(globs, pattern, listings)[i];
                &&& regex_match(pattern, p)
                &&& exists|j: int|
                    0 <= j < listings.len() && (#[trigger] listings[j]).files.contains(Some(p))
                        && (listings[j].is_dir || matches_any(globs, p))
            },
    decreases listings.len(),
{
    if listings.len() > 0 {
        let rest = listings.drop_last();
        let l = listings.last();
        let pred = |f: Option<Seq<char>>| kept(globs, pattern, l.is_dir, f);
        let kept_files = l.files.filter(pred);
        let tail = kept_files.map_values(|f: Option<Seq<char>>| f->0);
        lemma_found_files_match(globs, pattern, rest);
        let all = found(globs, pattern, listings);
        assert(all == found(globs, pattern, rest) + tail);
        assert forall|i: int| 0 <= i < all.len() implies {
            let p = #[trigger] all[i];
            &&& regex_match(pattern, p)
            &&& exists|j: int|
                0 <= j < listings.len() && (#[trigger] listings[j]).files.contains(Some(p))
                    && (listings[j].is_dir || matches_any(globs, p))
        } by {
            let head_len = found(globs, pattern, rest).len();
            if i < head_len {
                let p = all[i];
                assert(p == found(globs, pattern, rest)[i]);
                let j = choose|j: int|
                    0 <= j < rest.len() && (#[trigger] rest[j]).files.contains(Some(p))
                        && (rest[j].is_dir || matches_any(globs, p));
                assert(listings[j] == rest[j]);
            } else {
                let k = i - head_len;
                l.files.lemma_filter_pred(pred, k);
                let f = kept_files[k];
                assert(pred(f));
                assert(f is Some);
                assert(all[i] == f->0);
                assert(kept_files.contains(f));
                l.files.lemma_filter_contains_rev(pred, f);
                assert(f == Some(all[i]));
                assert(listings[listings.len() - 1] == l);
            }
        }
    }
}


/// Every file of a listing that is valid Unicode, lies under a directory
/// location or matches one of the globs, and matches the expression, is
/// among the files that a search returns: nothing that qualifies is left
/// out, wherever it lies under the location.
pub proof fn lemma_found_files_complete(globs: Seq<Seq<char>>, pattern: Seq<char>, listings: Seq<ListingModel>)
    ensures
        forall|j: int, k: int|
            0 <= j < listings.len() && 0 <= k < listings[j].files.len() && (#[trigger] listings[j].files[k]) is Some
                && (listings[j].is_dir || matches_any(globs, listings[j].files[k]->0)) && regex_match(
                pattern,
                listings[j].files[k]->0,
            ) ==> found(globs, pattern, listings).contains(listings[j].files[k]->0),
    decreases listings.len(),
{
    if listings.len() > 0 {
        let rest = listings.drop_last();
        let l = listings.last();
        let pred = |f: Option<Seq<char>>| kept(globs, pattern, l.is_dir, f);
        let kept_files = l.files.filter(pred);
        let tail = kept_files.map_values(|f: Option<Seq<char>>| f->0);
        lemma_found_files_complete(globs, pattern, rest);
        let all = found(globs, pattern, listings);
        assert(all == found(globs, pattern, rest) + tail);
        assert forall|j: int, k: int|
            0 <= j < listings.len() && 0 <= k < listings[j].files.len() && (#[trigger] listings[j].files[k]) is Some
                && (listings[j].is_dir || matches_any(globs, listings[j].files[k]->0)) && regex_match(
                pattern,
                listings[j].files[k]->0,
            ) implies all.contains(listings[j].files[k]->0) by {
            let p = listings[j].files[k]->0;
            if j < rest.len() {
                assert(rest[j] == listings[j]);
                assert(rest[j].files[k] == listings[j].files[k]);
                let a = choose|a: int| 0 <= a < found(globs, pattern, rest).len() && found(globs, pattern, rest)[a] == p;
                assert(all[a] == p);
            } else {
                assert(listings[j] == l);
                let f = l.files[k];
                assert(pred(f));
                l.files.lemma_filter_contains(pred, k);
                let b = choose|b: int| 0 <= b < kept_files.len() && kept_files[b] == f;
                assert(tail[b] == p);
                assert(all[found(globs, pattern, rest).len() + b] == p);
            }
        }
    }
}


/// What a search returns, built up piece by piece: nothing for no location;
/// for several locations, the results of each in their order; for a
/// listing whose walk is split in two, the results of the two parts in
/// order; and for a single found file, that file exactly when its path is
/// valid Unicode, it lies under a directory location or matches one of the
/// globs, and the expression matches it.
pub proof fn lemma_found_structure(
    globs: Seq<Seq<char>>,
    pattern: Seq<char>,
    a: Seq<ListingModel>,
    b: Seq<ListingModel>,
    is_dir: bool,
    first: Seq<Option<Seq<char>>>,
    second: Seq<Option<Seq<char>>>,
    file: Option<Seq<char>>,
)
    ensures
        found(globs, pattern, Seq::<ListingModel>::empty()) == Seq::<Seq<char>>::empty(),
        found(globs, pattern, a + b) == found(globs, pattern, a) + found(globs, pattern, b),
        found(globs, pattern, seq![ListingModel { is_dir, files: first + second }]) == found(
            globs,
            pattern,
            seq![ListingModel { is_dir, files: first }],
        ) + found(globs, pattern, seq![ListingModel { is_dir, files: second }]),
        found(globs, pattern, seq![ListingModel { is_dir, files: seq![file] }]) == (if file is Some && (is_dir
            || matches_any(globs, file->0)) && regex_match(pattern, file->0) {
            seq![file->0]
        } else {
            Seq::<Seq<char>>::empty()
        }),
{
    lemma_found_append(globs, pattern, a, b);
    let pred = |f: Option<Seq<char>>| kept(globs, pattern, is_dir, f);
    let to_path = |f: Option<Seq<char>>| f->0;
    let one = |fs: Seq<Option<Seq<char>>>| seq![ListingModel { is_dir, files: fs }];
    assert forall|fs: Seq<Option<Seq<char>>>| #[trigger] found(globs, pattern, one(fs)) == fs.filter(pred).map_values(to_path) by {
        let ls = one(fs);
        assert(ls.drop_last() =~= Seq::<ListingModel>::empty());
        assert(found(globs, pattern, ls.drop_last()) == Seq::<Seq<char>>::empty());
        assert(found(globs, pattern, ls) =~= fs.filter(pred).map_values(to_path));
    }
    Seq::filter_distributes_over_add(first, second, pred);
    assert((first + second).filter(pred).map_values(to_path) =~= first.filter(pred).map_values(to_path) + second.filter(
        pred,
    ).map_values(to_path));
    assert(found(globs, pattern, one(first + second)) == found(globs, pattern, one(first)) + found(globs, pattern, one(second)));
    reveal_with_fuel(Seq::filter, 2);
    assert(seq![file].drop_last() =~= Seq::<Option<Seq<char>>>::empty());
    assert(found(globs, pattern, one(seq![file])) == seq![file].filter(pred).map_values(to_path));
    if pred(file) {
        assert(seq![file].filter(pred).map_values(to_path) =~= seq![file->0]);
    } else {
        assert(seq![file].filter(pred).map_values(to_path) =~= Seq::<Seq<char>>::empty());
    }
}

proof fn lemma_found_append(globs: Seq<Seq<char>>, pattern: Seq<char>, a: Seq<ListingModel>, b: Seq<ListingModel>)
    ensures
        found(globs, pattern, a + b) == found(globs, pattern, a) + found(globs, pattern, b),
    decreases b.len(),
{
    if b.len() == 0 {
        assert(a + b =~= a);
        assert(found(globs, pattern, a) + found(globs, pattern, b) =~= found(globs, pattern, a));
    } else {
        lemma_found_append(globs, pattern, a, b.drop_last());
        assert((a + b).drop_last() =~= a + b.drop_last());
        assert((a + b).last() == b.last());
        assert(found(globs, pattern, a + b) =~= found(globs, pattern, a) + found(globs, pattern, b));
    }
}

} // verus!
