use vstd::prelude::*;

use crate::distributed::util::{rename, reprefix, RenameError};
use crate::paths::{
    base_of, base_split, dir_of, file_name, lemma_base_split_bounds, lemma_base_split_concat,
    lemma_base_split_props, with_file_name,
};

verus! {

/// The file-name prefix of a claimed file that is being processed.
pub open spec fn spec_processing_prefix() -> Seq<char> {
    "[processing]_"@
}

/// The file-name prefix of a file whose processing has finished.
pub open spec fn spec_done_prefix() -> Seq<char> {
    "[done]_"@
}

/// The `[processing]_` prefix as a string.
pub fn processing_prefix() -> (r: String)
    ensures
        r@ == spec_processing_prefix(),
{
    String::from_str("[processing]_")
}

/// The `[done]_` prefix as a string.
pub fn done_prefix() -> (r: String)
    ensures
        r@ == spec_done_prefix(),
{
    String::from_str("[done]_")
}

/// The path a claim renames `p` to: same directory, file name prefixed with
/// `[processing]_`.
pub open spec fn spec_processing_path(p: Seq<char>) -> Seq<char> {
    dir_of(p) + spec_processing_prefix() + base_of(p)
}

/// The path a release renames a claimed path `p` to: same directory, the
/// `[processing]_` prefix of the file name replaced by `[done]_`.
pub open spec fn spec_done_path(p: Seq<char>) -> Seq<char> {
    dir_of(p) + spec_done_prefix() + base_of(p).skip(spec_processing_prefix().len() as int)
}

/// Compute the `[processing]_`-prefixed form of `p`.
pub fn processing_path(p: &str) -> (r: String)
    ensures
        r@ == spec_processing_path(p@),
{
    let mut joined = processing_prefix();
    joined.append(file_name(p).as_str());
    let r = with_file_name(p, joined.as_str());
    assert(r@ =~= spec_processing_path(p@));
    r
}

/// Compute the `[done]_`-prefixed form of the claimed path `p`.
pub fn done_path(p: &str) -> (r: String)
    requires
        spec_processing_prefix().len() <= base_of(p@).len(),
    ensures
        r@ == spec_done_path(p@),
{
    let name = file_name(p);
    let prefix = processing_prefix();
    let done_name = reprefix(&name, &prefix, done_prefix());
    let r = with_file_name(p, done_name.as_str());
    assert(r@ =~= spec_done_path(p@));
    r
}

/// A path owning a claimed file under the `[processing]_` prefix; releasing it
/// renames the file to the `[done]_` state.
pub struct WrappedPath {
    path: String,
}

impl WrappedPath {
    /// The current path of the claimed file.
    pub closed spec fn path_spec(self) -> Seq<char> {
        self.path@
    }

    /// Wrap a freshly claimed path.
    pub fn new(path: String) -> (r: Self)
        ensures
            r.path_spec() == path@,
    {
        WrappedPath { path }
    }

    /// The current path of the claimed file.
    pub fn path(&self) -> (r: &String)
        ensures
            r@ == self.path_spec(),
    {
        &self.path
    }

    /// Release the claim: rename the file from its `[processing]_` name to
    /// exactly the `[done]_` name in the same directory, handed back as the
    /// attempted target. Failures are reported but must not fail the run;
    /// whether the rename succeeds depends on the disk.
    pub fn release(self) -> (r: (Result<(), RenameError>, Ghost<Seq<char>>))
        requires
            spec_processing_prefix().len() <= base_of(self.path_spec()).len(),
        ensures
            r.1@ == spec_done_path(self.path_spec()),
    {
        let target = done_path(self.path.as_str());
        let outcome = rename(&self.path, &target);
        (outcome, Ghost(target@))
    }
}

/// No character of either claim prefix is a `/`, and neither prefix is empty.
pub proof fn lemma_prefixes_slash_free()
    ensures
        forall|i: int|
            0 <= i < spec_processing_prefix().len() ==> spec_processing_prefix()[i] != '/',
        forall|i: int| 0 <= i < spec_done_prefix().len() ==> spec_done_prefix()[i] != '/',
        spec_processing_prefix().len() == 13,
        spec_done_prefix().len() == 7,
{
    reveal_strlit("[processing]_");
    reveal_strlit("[done]_");
}

/// The claim/release name discipline: claiming a file keeps its directory and
/// puts `[processing]_` in front of its name; releasing the claim keeps the
/// directory and turns the prefix into `[done]_`, restoring the original name
/// behind it.
#[verifier::spinoff_prover]
#[verifier::rlimit(100)]
pub proof fn lemma_claim_release_prefixes(p: Seq<char>)
    requires
        forall|i: int| 0 <= i < base_of(p).len() ==> base_of(p)[i] != '/',
    ensures
        dir_of(spec_processing_path(p)) == dir_of(p),
        base_of(spec_processing_path(p)) == spec_processing_prefix() + base_of(p),
        dir_of(spec_done_path(spec_processing_path(p))) == dir_of(p),
        base_of(spec_done_path(spec_processing_path(p))) == spec_done_prefix() + base_of(p),
{
    lemma_prefixes_slash_free();
    lemma_base_split_bounds(p);
    lemma_base_split_props(p);
    let d = dir_of(p);
    let b = base_of(p);
    let claimed = spec_processing_path(p);
    assert(d.len() == 0 || d.last() == '/');
    assert(claimed =~= d + (spec_processing_prefix() + b));
    lemma_base_split_concat(d, spec_processing_prefix() + b);
    assert(dir_of(claimed) =~= d);
    assert(base_of(claimed) =~= spec_processing_prefix() + b);
    let released = spec_done_path(claimed);
    assert(base_of(claimed).skip(spec_processing_prefix().len() as int) =~= b);
    assert(released =~= d + (spec_done_prefix() + b));
    lemma_base_split_concat(d, spec_done_prefix() + b);
    assert(dir_of(released) =~= d);
    assert(base_of(released) =~= spec_done_prefix() + b);
}

/// Whether a claim attempt yields a receipt: exactly when its atomic rename
/// succeeded; every failure is silently skipped.
pub open spec fn spec_claim_yields(outcome: Result<(), RenameError>) -> bool {
    outcome is Ok
}

/// Two runners racing to claim the same unclaimed file: the atomic rename
/// primitive lets exactly one of the two renames succeed, so exactly one
/// runner observes the yield and the other silently skips the file.
pub proof fn lemma_claim_race_exclusive(
    first: Result<(), RenameError>,
    second: Result<(), RenameError>,
)
    requires
        first is Ok <==> !(second is Ok),
    ensures
        spec_claim_yields(first) <==> !spec_claim_yields(second),
        spec_claim_yields(first) || spec_claim_yields(second),
        !(spec_claim_yields(first) && spec_claim_yields(second)),
{
}

} // verus!
