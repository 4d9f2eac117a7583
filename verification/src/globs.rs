//! The locations taken as globs, compiled together by `globset`.
//!
//! This module holds the builder, the compiled set and the calls into the
//! crate, and nothing else: the sources of the globs are noted only by the
//! calls that add them ([`add_glob`]) and copied into a [`GlobList`] only by
//! the call that builds its set from them ([`build_globs`]).
use vstd::prelude::*;

verus! {

#[verifier::external_type_specification]
#[verifier::external_body]
pub struct ExGlobSetBuilder(globset::GlobSetBuilder);

#[verifier::external_type_specification]
#[verifier::external_body]
pub struct ExGlobSet(globset::GlobSet);

#[verifier::external_type_specification]
#[verifier::external_body]
pub struct ExGlobError(globset::Error);

/// Whether `globset` accepts `glob` as a glob.
pub uninterp spec fn glob_accepted(glob: Seq<char>) -> bool;

/// Whether `globset` builds a set from the accepted globs `globs`.
pub uninterp spec fn globs_build(globs: Seq<Seq<char>>) -> bool;

/// Whether the glob `glob` matches the path `path`, as a matcher compiled
/// from it by the `globset` crate decides.
pub uninterp spec fn glob_match(glob: Seq<char>, path: Seq<char>) -> bool;

/// Whether every glob is accepted and the set of them can be built: the
/// condition on which a list of globs compiles.
pub open spec fn globs_compile(globs: Seq<Seq<char>>) -> bool {
    &&& forall|i: int| 0 <= i < globs.len() ==> glob_accepted(#[trigger] globs[i])
    &&& globs_build(globs)
}

/// Whether any of the globs matches the path.
pub open spec fn matches_any(globs: Seq<Seq<char>>, path: Seq<char>) -> bool {
    exists|i: int| 0 <= i < globs.len() && glob_match(#[trigger] globs[i], path)
}

/// A `globset` builder together with the sources of the globs added to it;
/// only the trusted functions below touch the two, and always together.
pub(crate) struct GlobsBuilder {
    globs: Vec<String>,
    builder: globset::GlobSetBuilder,
}

impl GlobsBuilder {
    pub(crate) closed spec fn spec_globs(&self) -> Seq<Seq<char>> {
        self.globs@.map_values(|g: String| g@)
    }
}

/// A set of globs compiled by `globset`, kept with their sources. Only
/// [`build_globs`] makes one, from the builder whose sources it keeps.
pub struct GlobList {
    globs: Vec<String>,
    set: globset::GlobSet,
}

impl GlobList {
    /// The sources of the globs.
    pub closed spec fn spec_globs(&self) -> Seq<Seq<char>> {
        self.globs@.map_values(|g: String| g@)
    }
}

/// Calls `GlobSetBuilder::new`; no glob is in it.
#[verifier::external_body]
pub(crate) fn new_builder() -> (b: GlobsBuilder)
    ensures
        b.spec_globs() == Seq::<Seq<char>>::empty(),
{
    GlobsBuilder { globs: Vec::new(), builder: globset::GlobSetBuilder::new() }
}

/// Calls `Glob::new` on `glob` and, when it is accepted, `GlobSetBuilder::add`
/// with the result, noting its source. Claimed: it succeeds exactly when
/// `globset` accepts the glob, which depends on the glob alone; on success
/// the glob is added, on failure nothing changes.
#[verifier::external_body]
pub(crate) fn add_glob(b: &mut GlobsBuilder, glob: &str) -> (r: Result<(), globset::Error>)
    ensures
        r is Ok <==> glob_accepted(glob@),
        r is Ok ==> final(b).spec_globs() == old(b).spec_globs().push(glob@),
        r is Err ==> final(b).spec_globs() == old(b).spec_globs(),
{
    b.builder.add(globset::Glob::new(glob)?);
    b.globs.push(glob.to_string());
    Ok(())
}

/// Calls `GlobSetBuilder::build` and keeps the sources beside the set.
/// Claimed: it succeeds exactly when `globset` builds a set of the globs
/// added, and always when none was (`GlobSet::new` returns the empty set at
/// once); the sources kept are those of the builder.
#[verifier::external_body]
pub(crate) fn build_globs(b: &GlobsBuilder) -> (r: Result<GlobList, globset::Error>)
    ensures
        r is Ok <==> globs_build(b.spec_globs()),
        b.spec_globs().len() == 0 ==> r is Ok,
        r matches Ok(l) ==> l.spec_globs() == b.spec_globs(),
{
    Ok(GlobList { globs: b.globs.clone(), set: b.builder.build()? })
}

/// Calls `GlobSet::is_match` on the set of `l`. Claimed, as globset
/// documents it: the answer is whether any glob of the set matches the path;
/// the set was built from the globs whose sources `l` keeps.
#[verifier::external_body]
pub(crate) fn glob_list_is_match(l: &GlobList, path: &str) -> (b: bool)
    ensures
        b == (exists|i: int| 0 <= i < l.spec_globs().len() && glob_match(#[trigger] l.spec_globs()[i], path@)),
{
    l.set.is_match(path)
}

} // verus!
