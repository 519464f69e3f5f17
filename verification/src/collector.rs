use vstd::prelude::*;

use crate::config::{
    spec_any_bad_grouped_ref, spec_grouped_refs, spec_keys, CollectorConfig, ConfigErrors, TestSet,
};
use crate::distributed::fs::{
    done_prefix, processing_path, spec_processing_path, WrappedPath,
};
use crate::distributed::mpi::MPICollector;
use crate::distributed::util::rename;
use crate::paths::{file_name, has_prefix};

verus! {

#[verifier::external_type_specification]
#[verifier::external_body]
pub struct ExGlobSet(globset::GlobSet);

#[verifier::external_type_specification]
#[verifier::external_body]
pub struct ExWalkBuilder(ignore::WalkBuilder);

#[verifier::external_type_specification]
#[verifier::external_body]
pub struct ExWalk(ignore::Walk);

#[verifier::external_type_specification]
#[verifier::external_body]
pub struct ExIgnoreError(ignore::Error);

#[verifier::external_type_specification]
#[verifier::external_body]
pub struct ExDirEntry(ignore::DirEntry);

/// Whether a glob pattern matches a path. The verdict depends on the pattern
/// and the path alone; what it is for given values only the glob engine says.
pub uninterp spec fn glob_match(pattern: Seq<char>, path: Seq<char>) -> bool;

/// Whether a glob pattern compiles into a matcher. The verdict depends on the
/// pattern alone; which patterns are refused only the glob engine says.
pub uninterp spec fn glob_compiles(pattern: Seq<char>) -> bool;

/// A compiled glob matcher, remembering the pattern it was built from.
pub struct GlobFilter {
    pattern: String,
    matcher: globset::GlobSet,
}

impl GlobFilter {
    /// The pattern this matcher was compiled from.
    pub closed spec fn pattern_spec(self) -> Seq<char> {
        self.pattern@
    }
}

/// Compile a glob pattern into a matcher paired with its pattern; fails
/// exactly when the pattern does not compile, and never panics.
///
/// Relies on globset::GlobBuilder::build and globset::GlobSetBuilder::build
/// (the fallible compilation path): both depend on the pattern alone, and the
/// matcher is built from exactly the stored pattern, so its verdicts are
/// `glob_match` of that pattern.
#[verifier::external_body]
pub fn compile_glob(pattern: &str) -> (r: Result<GlobFilter, globset::Error>)
    ensures
        r is Ok <==> glob_compiles(pattern@),
        r matches Ok(f) ==> f.pattern_spec() == pattern@,
{
    let glob = globset::GlobBuilder::new(pattern).build()?;
    let mut builder = globset::GlobSetBuilder::new();
    builder.add(glob);
    let matcher = builder.build()?;
    Ok(GlobFilter { pattern: pattern.to_owned(), matcher })
}

/// Whether the compiled glob matches the path.
///
/// Relies on globset::GlobSet::is_match: deterministic in the pattern the
/// matcher was compiled from and the path.
#[verifier::external_body]
pub fn glob_is_match(f: &GlobFilter, path: &str) -> (r: bool)
    ensures
        r == glob_match(f.pattern_spec(), path@),
{
    f.matcher.is_match(std::path::Path::new(path))
}

/// Start a recursive directory walk at a root path.
///
/// Relies on ignore::WalkBuilder::new; what the walk will find depends on the
/// disk, so nothing is promised.
#[verifier::external_body]
fn walk_builder_new(root: &String) -> ignore::WalkBuilder {
    ignore::WalkBuilder::new(std::path::Path::new(root.as_str()))
}

/// Add one more root path to the walk.
///
/// Relies on ignore::WalkBuilder::add.
#[verifier::external_body]
fn walk_builder_add(builder: &mut ignore::WalkBuilder, root: &String) {
    builder.add(std::path::Path::new(root.as_str()));
}

/// Build the walker over all added roots.
///
/// Relies on ignore::WalkBuilder::build.
#[verifier::external_body]
fn walk_build(builder: &ignore::WalkBuilder) -> ignore::Walk {
    builder.build()
}

/// The next walked entry: `None` when the walk is exhausted, `Some(None)` for
/// an entry that errored, `Some(Some(path))` otherwise; a path that is not
/// UTF-8 is converted lossily.
///
/// Relies on ignore::Walk::next (its Iterator implementation); what comes
/// back depends on the disk, so nothing is promised.
#[verifier::external_body]
fn walk_next(walk: &mut ignore::Walk) -> Option<Option<String>> {
    match walk.next() {
        None => None,
        Some(Err(_)) => Some(None),
        Some(Ok(entry)) => Some(Some(entry.into_path().to_string_lossy().into_owned())),
    }
}

/// The candidate paths that the glob pattern keeps, in order.
pub open spec fn spec_glob_filter(pattern: Seq<char>, candidates: Seq<Seq<char>>) -> Seq<Seq<char>>
    decreases candidates.len(),
{
    if candidates.len() == 0 {
        Seq::empty()
    } else if glob_match(pattern, candidates[0]) {
        seq![candidates[0]] + spec_glob_filter(pattern, candidates.drop_first())
    } else {
        spec_glob_filter(pattern, candidates.drop_first())
    }
}

/// Keep the candidate paths that the glob pattern matches, in order; fails
/// exactly when the pattern does not compile.
pub fn filter_matching(pattern: &str, candidates: Vec<String>) -> (r: Result<
    Vec<String>,
    ConfigErrors,
>)
    ensures
        r is Ok <==> glob_compiles(pattern@),
        r matches Ok(v) ==> v.deep_view() == spec_glob_filter(pattern@, candidates.deep_view()),
        r matches Err(e) ==> e is InvalidGlobs,
    decreases candidates@.len(),
{
    let filter = match compile_glob(pattern) {
        Ok(f) => f,
        Err(e) => {
            return Err(ConfigErrors::InvalidGlobs(e));
        },
    };
    proof {
        assert(candidates.deep_view().skip(0) =~= candidates.deep_view());
    }
    Ok(filter_with(&filter, candidates, 0))
}

/// Keep the candidates from `i` on that the compiled glob matches.
fn filter_with(filter: &GlobFilter, candidates: Vec<String>, i: usize) -> (r: Vec<String>)
    requires
        i <= candidates@.len(),
    ensures
        r.deep_view() == spec_glob_filter(
            filter.pattern_spec(),
            candidates.deep_view().skip(i as int),
        ),
    decreases candidates@.len() - i,
{
    let ghost cv = candidates.deep_view();
    if i >= candidates.len() {
        let r: Vec<String> = Vec::new();
        proof {
            assert(cv.skip(i as int).len() == 0);
            assert(r.deep_view() =~= spec_glob_filter(filter.pattern_spec(), cv.skip(i as int)));
        }
        r
    } else {
        proof {
            assert(cv.skip(i as int)[0] == cv[i as int]);
            assert(cv.skip(i as int).drop_first() =~= cv.skip(i as int + 1));
        }
        let keep = glob_is_match(filter, candidates[i].as_str());
        let item = if keep {
            Some(candidates[i].clone())
        } else {
            None
        };
        let mut rest = filter_with(filter, candidates, i + 1);
        match item {
            Some(p) => {
                let mut r: Vec<String> = Vec::new();
                r.push(p);
                r.append(&mut rest);
                proof {
                    assert(r.deep_view() =~= seq![cv[i as int]] + spec_glob_filter(
                        filter.pattern_spec(),
                        cv.skip(i as int + 1),
                    ));
                }
                r
            },
            None => rest,
        }
    }
}

/// The loaded collectors, keyed by test-set name.
pub type CollectorMap = Vec<(String, Collector)>;

/// A work item handed out by a collector: either a plain path, or a claimed
/// path that must be released to its done state after the last use.
pub enum PathValue {
    /// A plain path.
    Buf(String),
    /// A claimed path under the `[processing]_` prefix.
    Wrapped(WrappedPath),
}

impl PathValue {
    /// The path this value names.
    pub open spec fn path_spec(self) -> Seq<char> {
        match self {
            PathValue::Buf(p) => p@,
            PathValue::Wrapped(w) => w.path_spec(),
        }
    }

    /// The path this value names.
    pub fn path(&self) -> (r: &String)
        ensures
            r@ == self.path_spec(),
    {
        match self {
            PathValue::Buf(p) => p,
            PathValue::Wrapped(w) => w.path(),
        }
    }
}

/// A composable lazy source of work paths.
///
/// `Glob` and `GDB` hold a materialized list and yield it back to front;
/// `Grouped` chains child collectors in order; `FS` filters an inner collector
/// through the filesystem claim protocol; `MPI` is a stub for a future
/// coordinated mode.
pub enum Collector {
    Glob { paths: Vec<String> },
    GDB { paths: Vec<String> },
    Grouped { collectors: Vec<Collector> },
    FS { inner: Box<Collector> },
    MPI(MPICollector),
}

/// The paths that the collectors `cs[i..]` will yield, in yield order.
pub open spec fn items_from(cs: Seq<Collector>, i: int) -> Seq<Seq<char>>
    decreases cs, cs.len() - i,
{
    if 0 <= i < cs.len() {
        cs[i].items() + items_from(cs, i + 1)
    } else {
        Seq::empty()
    }
}

/// Whether all of `cs[i..]` are free of `FS` and `MPI` wrappers.
pub open spec fn plain_from(cs: Seq<Collector>, i: int) -> bool
    decreases cs, cs.len() - i,
{
    if 0 <= i < cs.len() {
        cs[i].plain() && plain_from(cs, i + 1)
    } else {
        true
    }
}

/// The summed size of the collectors `cs[i..]`.
pub open spec fn size_from(cs: Seq<Collector>, i: int) -> nat
    decreases cs, cs.len() - i,
{
    if 0 <= i < cs.len() {
        cs[i].size_spec() + size_from(cs, i + 1)
    } else {
        0
    }
}

impl Collector {
    /// The paths this collector will yield, in yield order. For an `FS`
    /// collector this is the inner sequence, of which the claim protocol
    /// yields a subsequence.
    pub open spec fn items(self) -> Seq<Seq<char>>
        decreases self, 0int,
    {
        match self {
            Collector::Glob { paths } => paths.deep_view().reverse(),
            Collector::GDB { paths } => paths.deep_view().reverse(),
            Collector::Grouped { collectors } => items_from(collectors@, 0),
            Collector::FS { inner } => inner.items(),
            Collector::MPI(_) => Seq::empty(),
        }
    }

    /// Whether this collector is free of `FS` and `MPI` wrappers.
    pub open spec fn plain(self) -> bool
        decreases self, 0int,
    {
        match self {
            Collector::Glob { .. } => true,
            Collector::GDB { .. } => true,
            Collector::Grouped { collectors } => plain_from(collectors@, 0),
            Collector::FS { .. } => false,
            Collector::MPI(_) => false,
        }
    }

    /// Whether this collector can be iterated: plain, or an `FS` wrapper
    /// around a plain collector.
    pub open spec fn runnable(self) -> bool {
        match self {
            Collector::FS { inner } => inner.plain(),
            Collector::MPI(_) => false,
            _ => self.plain(),
        }
    }

    /// The exact number of paths for plain collectors; for `FS` an upper
    /// bound, since losing races shrinks what is yielded.
    pub open spec fn size_spec(self) -> nat
        decreases self, 0int,
    {
        match self {
            Collector::Glob { paths } => paths@.len(),
            Collector::GDB { paths } => paths@.len(),
            Collector::Grouped { collectors } => size_from(collectors@, 0),
            Collector::FS { inner } => inner.size_spec(),
            Collector::MPI(_) => 0,
        }
    }

    /// The children of a `Grouped` collector; empty for other variants.
    pub open spec fn grouped_children(self) -> Seq<Collector> {
        match self {
            Collector::Grouped { collectors } => collectors@,
            _ => Seq::empty(),
        }
    }

    /// The collector wrapped by an `FS` collector; the collector itself
    /// otherwise.
    pub open spec fn fs_inner(self) -> Collector {
        match self {
            Collector::FS { inner } => *inner,
            _ => self,
        }
    }

    /// How many children this collector contributes when flattened into a
    /// `Grouped` collector by `join`.
    pub open spec fn flat_count(self) -> nat {
        if self is Grouped {
            self.grouped_children().len()
        } else {
            1
        }
    }
}

/// The children of the `Grouped` collector that `join(a, b)` produces: both
/// sides flattened, so that one `Grouped` level never nests another made by
/// `join`. The left side's children always come first, so iteration yields
/// `a`'s items before `b`'s.
pub open spec fn spec_join_children(a: Collector, b: Collector) -> Seq<Collector> {
    if a is Grouped && b is Grouped {
        a.grouped_children() + b.grouped_children()
    } else if a is Grouped {
        a.grouped_children().push(b)
    } else if b is Grouped {
        seq![a] + b.grouped_children()
    } else {
        seq![a, b]
    }
}

/// A plain collector is runnable.
pub proof fn lemma_plain_runnable(c: Collector)
    requires
        c.plain(),
    ensures
        c.runnable(),
{
}

/// When the collectors `cs[k..i]` have nothing to yield, the items from `k`
/// are the items from `i`.
pub proof fn lemma_items_from_skip_empty(cs: Seq<Collector>, k: int, i: int)
    requires
        0 <= k <= i <= cs.len(),
        forall|j: int| k <= j < i ==> cs[j].items().len() == 0,
    ensures
        items_from(cs, k) == items_from(cs, i),
    decreases i - k,
{
    if k < i {
        assert(cs[k].items() + items_from(cs, k + 1) =~= items_from(cs, k + 1));
        lemma_items_from_skip_empty(cs, k + 1, i);
    }
}

/// Every collector at or after `k` in a plain suffix is plain.
pub proof fn lemma_plain_from_elem(cs: Seq<Collector>, k: int, j: int)
    requires
        plain_from(cs, k),
        0 <= k <= j < cs.len(),
    ensures
        cs[j].plain(),
    decreases j - k,
{
    if k < j {
        lemma_plain_from_elem(cs, k + 1, j);
    }
}

/// Replacing an element by a plain collector keeps a plain suffix plain.
pub proof fn lemma_plain_from_update(cs: Seq<Collector>, c2: Collector, u: int, k: int)
    requires
        plain_from(cs, k),
        c2.plain(),
        0 <= u < cs.len(),
        0 <= k,
    ensures
        plain_from(cs.update(u, c2), k),
    decreases cs.len() - k,
{
    if k < cs.len() {
        lemma_plain_from_update(cs, c2, u, k + 1);
    }
}

/// `join` flattens: the flat child count of the joined collector is the sum
/// of the two sides' flat counts.
pub proof fn lemma_join_children_count(a: Collector, b: Collector)
    ensures
        spec_join_children(a, b).len() == a.flat_count() + b.flat_count(),
{
}

/// Joining is associative at the flattened level: however a chain of three
/// collectors is parenthesised, the two resulting `Grouped` collectors have
/// equal flat child counts.
pub proof fn lemma_join_flat_associative(
    a: Collector,
    b: Collector,
    c: Collector,
    ab: Collector,
    bc: Collector,
    ab_c: Collector,
    a_bc: Collector,
)
    requires
        ab is Grouped,
        ab.grouped_children() == spec_join_children(a, b),
        bc is Grouped,
        bc.grouped_children() == spec_join_children(b, c),
        ab_c is Grouped,
        ab_c.grouped_children() == spec_join_children(ab, c),
        a_bc is Grouped,
        a_bc.grouped_children() == spec_join_children(a, bc),
    ensures
        ab_c.grouped_children().len() == a_bc.grouped_children().len(),
{
    lemma_join_children_count(a, b);
    lemma_join_children_count(b, c);
    lemma_join_children_count(ab, c);
    lemma_join_children_count(a, bc);
}

/// For a plain collector the size is exact: it equals the number of paths the
/// collector will yield. (For an `FS` wrapper the inner size is an upper bound
/// only, since lost claim races shrink what comes out.)
pub proof fn lemma_plain_size_is_item_count(c: Collector)
    requires
        c.plain(),
    ensures
        c.size_spec() == c.items().len(),
    decreases c, 0int,
{
    match c {
        Collector::Grouped { collectors } => {
            lemma_size_from_item_count(collectors@, 0);
        },
        _ => {},
    }
}

proof fn lemma_size_from_item_count(cs: Seq<Collector>, i: int)
    requires
        plain_from(cs, i),
        0 <= i,
    ensures
        size_from(cs, i) == items_from(cs, i).len(),
    decreases cs, cs.len() - i,
{
    if i < cs.len() {
        lemma_plain_size_is_item_count(cs[i]);
        lemma_size_from_item_count(cs, i + 1);
    }
}

/// Pop the next path off a materialized list, yielding back to front.
fn list_next(paths: &mut Vec<String>) -> (r: Option<PathValue>)
    ensures
        old(paths)@.len() == 0 ==> r is None && final(paths)@ == old(paths)@,
        old(paths)@.len() > 0 ==> match r {
            Some(pv) => pv is Buf && pv.path_spec() == old(paths).deep_view().reverse()[0]
                && final(paths).deep_view().reverse() == old(paths).deep_view().reverse().skip(1),
            None => false,
        },
{
    let ghost dv0 = paths.deep_view();
    match paths.pop() {
        Some(p) => {
            proof {
                assert(p@ == dv0[dv0.len() - 1]);
                assert(p@ == dv0.reverse()[0]);
                assert(paths.deep_view().reverse() =~= dv0.reverse().skip(1));
            }
            Some(PathValue::Buf(p))
        },
        None => None,
    }
}

/// When two sequences of collectors agree from `i` on, so do their items.
pub proof fn lemma_items_from_pointwise(cs1: Seq<Collector>, cs2: Seq<Collector>, i: int)
    requires
        cs1.len() == cs2.len(),
        0 <= i,
        forall|j: int| i <= j < cs1.len() ==> cs1[j] == cs2[j],
    ensures
        items_from(cs1, i) == items_from(cs2, i),
    decreases cs1.len() - i,
{
    if i < cs1.len() {
        lemma_items_from_pointwise(cs1, cs2, i + 1);
    }
}

/// Yield the next path of a plain collector: the front of its items.
#[verifier::loop_isolation(false)]
fn plain_next(c: &mut Collector) -> (r: Option<PathValue>)
    requires
        old(c).plain(),
    ensures
        final(c).plain(),
        old(c).items().len() == 0 ==> r is None && final(c).items() == old(c).items(),
        old(c).items().len() > 0 ==> match r {
            Some(pv) => pv is Buf && pv.path_spec() == old(c).items()[0] && final(c).items()
                == old(c).items().skip(1),
            None => false,
        },
    decreases *old(c),
{
    match c {
        Collector::Glob { paths } => list_next(paths),
        Collector::GDB { paths } => list_next(paths),
        Collector::Grouped { collectors } => grouped_next(collectors),
        Collector::FS { .. } => {
            proof {
                assert(false);
            }
            None
        },
        Collector::MPI(_) => {
            proof {
                assert(false);
            }
            None
        },
    }
}

/// Yield the first remaining path of the first child that still has one.
#[verifier::loop_isolation(false)]
fn grouped_next(collectors: &mut Vec<Collector>) -> (r: Option<PathValue>)
    requires
        plain_from(old(collectors)@, 0),
    ensures
        plain_from(final(collectors)@, 0),
        match r {
            None => items_from(old(collectors)@, 0).len() == 0 && items_from(
                final(collectors)@,
                0,
            ) == items_from(old(collectors)@, 0),
            Some(pv) => pv is Buf && items_from(old(collectors)@, 0).len() > 0 && pv.path_spec()
                == items_from(old(collectors)@, 0)[0] && items_from(final(collectors)@, 0)
                == items_from(old(collectors)@, 0).skip(1),
        },
    decreases old(collectors)@,
{
    let ghost cs0 = old(collectors)@;
    let mut i: usize = 0;
    while i < collectors.len()
        invariant
            0 <= i <= collectors.len(),
            collectors@.len() == cs0.len(),
            plain_from(collectors@, 0),
            forall|j: int| i <= j < cs0.len() ==> collectors@[j] == cs0[j],
            forall|j: int| 0 <= j < i ==> cs0[j].items().len() == 0,
            forall|j: int| 0 <= j < i ==> (#[trigger] collectors@[j]).items().len() == 0,
        decreases collectors.len() - i,
    {
        let ghost pre = collectors@;
        proof {
            lemma_plain_from_elem(pre, 0, i as int);
            assert(collectors@[i as int] == cs0[i as int]);
            assert(decreases_to!(cs0 => cs0[i as int]));
        }
        let r = plain_next(&mut collectors[i]);
        proof {
            assert(collectors@ =~= pre.update(i as int, collectors@[i as int]));
            lemma_plain_from_update(pre, collectors@[i as int], i as int, 0);
        }
        match r {
            Some(pv) => {
                proof {
                    let cs1 = collectors@;
                    lemma_items_from_skip_empty(cs0, 0, i as int);
                    assert(items_from(cs0, i as int) == cs0[i as int].items() + items_from(
                        cs0,
                        i as int + 1,
                    ));
                    assert(pv.path_spec() == items_from(cs0, 0)[0]);
                    lemma_items_from_skip_empty(cs1, 0, i as int);
                    lemma_items_from_pointwise(cs1, cs0, i as int + 1);
                    assert(items_from(cs1, i as int) == cs1[i as int].items() + items_from(
                        cs1,
                        i as int + 1,
                    ));
                    assert(items_from(cs1, 0) =~= items_from(cs0, 0).skip(1));
                }
                return Some(pv);
            },
            None => {
                i = i + 1;
            },
        }
    }
    proof {
        lemma_items_from_skip_empty(cs0, 0, cs0.len() as int);
        lemma_items_from_skip_empty(collectors@, 0, cs0.len() as int);
        assert(items_from(cs0, 0) =~= items_from(collectors@, 0));
    }
    None
}

/// Drain the inner collector until a file is claimed: paths that vanished,
/// are already done, or lose the rename race are skipped.
#[verifier::loop_isolation(false)]
fn fs_next(inner: &mut Collector) -> (r: Option<PathValue>)
    requires
        old(inner).plain(),
    ensures
        final(inner).plain(),
        match r {
            None => final(inner).items().len() == 0,
            Some(pv) => pv is Wrapped && exists|i: int|
                0 <= i < old(inner).items().len() && pv.path_spec() == spec_processing_path(
                    old(inner).items()[i],
                ) && final(inner).items() == old(inner).items().skip(i + 1),
        },
{
    let ghost items0 = old(inner).items();
    let ghost mut j: int = 0;
    loop
        invariant
            inner.plain(),
            0 <= j <= items0.len(),
            inner.items() == items0.skip(j),
        decreases items0.len() - j,
    {
        match plain_next(inner) {
            None => {
                return None;
            },
            Some(pv) => {
                proof {
                    assert(items0.skip(j)[0] == items0[j]);
                    assert(items0.skip(j).skip(1) =~= items0.skip(j + 1));
                }
                match pv {
                    PathValue::Buf(p) => {
                        if crate::config::stat_mode(&p).is_some() {
                            let name = file_name(p.as_str());
                            let done = done_prefix();
                            if !has_prefix(name.as_str(), done.as_str()) {
                                let new_path = processing_path(p.as_str());
                                match rename(&p, &new_path) {
                                    Ok(()) => {
                                        let ghost witness = j;
                                        let w = WrappedPath::new(new_path);
                                        proof {
                                            assert(0 <= witness < items0.len());
                                            assert(w.path_spec() == spec_processing_path(
                                                items0[witness],
                                            ));
                                        }
                                        return Some(PathValue::Wrapped(w));
                                    },
                                    Err(_) => {},
                                }
                            }
                        }
                        proof {
                            j = j + 1;
                        }
                    },
                    PathValue::Wrapped(_) => {
                        // a plain inner collector yields plain paths only
                        proof {
                            assert(false);
                        }
                        return None;
                    },
                }
            },
        }
    }
}

/// Everything the glob filter keeps matches the pattern.
pub proof fn lemma_glob_filter_all(pattern: Seq<char>, candidates: Seq<Seq<char>>)
    ensures
        forall|j: int|
            0 <= j < spec_glob_filter(pattern, candidates).len() ==> glob_match(
                pattern,
                #[trigger] spec_glob_filter(pattern, candidates)[j],
            ),
    decreases candidates.len(),
{
    if candidates.len() > 0 {
        lemma_glob_filter_all(pattern, candidates.drop_first());
        if glob_match(pattern, candidates[0]) {
            assert forall|j: int|
                0 <= j < spec_glob_filter(pattern, candidates).len() implies glob_match(
                pattern,
                #[trigger] spec_glob_filter(pattern, candidates)[j],
            ) by {
                if j > 0 {
                    assert(spec_glob_filter(pattern, candidates)[j] == spec_glob_filter(
                        pattern,
                        candidates.drop_first(),
                    )[j - 1]);
                }
            }
        }
    }
}

/// When two collector sequences agree pointwise in items, size and plainness
/// from `i` on, so do their aggregates.
pub proof fn lemma_from_agree(cs1: Seq<Collector>, cs2: Seq<Collector>, i: int)
    requires
        cs1.len() == cs2.len(),
        0 <= i,
        forall|j: int|
            i <= j < cs1.len() ==> (#[trigger] cs1[j]).items() == cs2[j].items()
                && cs1[j].size_spec() == cs2[j].size_spec() && cs1[j].plain() == cs2[j].plain(),
    ensures
        items_from(cs1, i) == items_from(cs2, i),
        size_from(cs1, i) == size_from(cs2, i),
        plain_from(cs1, i) == plain_from(cs2, i),
    decreases cs1.len() - i,
{
    if i < cs1.len() {
        lemma_from_agree(cs1, cs2, i + 1);
    }
}

/// A suffix of collectors that are each plain is a plain suffix.
pub proof fn lemma_plain_from_all(cs: Seq<Collector>, k: int)
    requires
        0 <= k,
        forall|j: int| k <= j < cs.len() ==> (#[trigger] cs[j]).plain(),
    ensures
        plain_from(cs, k),
    decreases cs.len() - k,
{
    if k < cs.len() {
        lemma_plain_from_all(cs, k + 1);
    }
}

/// Copy every String of a vector.
#[verifier::loop_isolation(false)]
fn copy_strings(src: &Vec<String>) -> (r: Vec<String>)
    ensures
        r@ == src@,
{
    let mut r: Vec<String> = Vec::new();
    let mut i: usize = 0;
    while i < src.len()
        invariant
            0 <= i <= src@.len(),
            r@ == src@.take(i as int),
        decreases src@.len() - i,
    {
        r.push(src[i].clone());
        proof {
            assert(r@ =~= src@.take(i as int + 1));
        }
        i = i + 1;
    }
    proof {
        assert(src@.take(src@.len() as int) =~= src@);
    }
    r
}

/// Copy a plain collector: the copy is plain, of the same variant, and yields
/// the same items.
fn duplicate_plain(c: &Collector) -> (r: Collector)
    requires
        c.plain(),
    ensures
        r.plain(),
        r.items() == c.items(),
        r.size_spec() == c.size_spec(),
        r is Glob == c is Glob,
        r is GDB == c is GDB,
        r is Grouped == c is Grouped,
    decreases *c,
{
    match c {
        Collector::Glob { paths } => Collector::Glob { paths: copy_strings(paths) },
        Collector::GDB { paths } => Collector::GDB { paths: copy_strings(paths) },
        Collector::Grouped { collectors } => {
            let kids = duplicate_children(collectors);
            proof {
                lemma_from_agree(kids@, collectors@, 0);
            }
            Collector::Grouped { collectors: kids }
        },
        Collector::FS { .. } => {
            proof {
                assert(false);
            }
            Collector::GDB { paths: Vec::new() }
        },
        Collector::MPI(_) => {
            proof {
                assert(false);
            }
            Collector::GDB { paths: Vec::new() }
        },
    }
}

/// Copy every collector of a plain child list.
#[verifier::loop_isolation(false)]
fn duplicate_children(cs: &Vec<Collector>) -> (r: Vec<Collector>)
    requires
        plain_from(cs@, 0),
    ensures
        r@.len() == cs@.len(),
        forall|j: int|
            0 <= j < cs@.len() ==> (#[trigger] r@[j]).items() == cs@[j].items()
                && r@[j].size_spec() == cs@[j].size_spec() && r@[j].plain() == cs@[j].plain(),
    decreases cs@,
{
    let mut r: Vec<Collector> = Vec::new();
    let mut i: usize = 0;
    while i < cs.len()
        invariant
            0 <= i <= cs@.len(),
            r@.len() == i,
            forall|j: int|
                0 <= j < i ==> (#[trigger] r@[j]).items() == cs@[j].items() && r@[j].size_spec()
                    == cs@[j].size_spec() && r@[j].plain() == cs@[j].plain(),
        decreases cs@.len() - i,
    {
        proof {
            lemma_plain_from_elem(cs@, 0, i as int);
            assert(decreases_to!(cs@ => cs@[i as int]));
        }
        let kid = duplicate_plain(&cs[i]);
        r.push(kid);
        i = i + 1;
    }
    r
}

/// The loaded collector stored under a test-set name: the first entry with
/// that key.
pub open spec fn spec_collector_of(m: Seq<(String, Collector)>, name: Seq<char>) -> Option<
    Collector,
>
    decreases m.len(),
{
    if m.len() == 0 {
        None
    } else if m[0].0@ == name {
        Some(m[0].1)
    } else {
        spec_collector_of(m.drop_first(), name)
    }
}

/// A name among the stored keys is found.
pub proof fn lemma_collector_of_contains(m: Seq<(String, Collector)>, name: Seq<char>)
    requires
        exists|k: int| 0 <= k < m.len() && (#[trigger] m[k]).0@ == name,
    ensures
        spec_collector_of(m, name) is Some,
    decreases m.len(),
{
    if m.len() > 0 && m[0].0@ != name {
        let k = choose|k: int| 0 <= k < m.len() && (#[trigger] m[k]).0@ == name;
        assert(m.drop_first()[k - 1].0@ == name);
        lemma_collector_of_contains(m.drop_first(), name);
    }
}

/// Find the loaded collector of a test set by name and hand back a copy.
#[verifier::loop_isolation(false)]
fn find_collector(map: &CollectorMap, name: &str) -> (r: Option<Collector>)
    requires
        forall|k: int| 0 <= k < map@.len() ==> (#[trigger] map@[k]).1.plain(),
    ensures
        r is Some <==> spec_collector_of(map@, name@) is Some,
        r matches Some(c) ==> c.plain() && c.items() == spec_collector_of(
            map@,
            name@,
        ).unwrap().items() && c.size_spec() == spec_collector_of(map@, name@).unwrap().size_spec(),
{
    proof {
        assert(map@.skip(0) =~= map@);
    }
    let mut i: usize = 0;
    while i < map.len()
        invariant
            0 <= i <= map@.len(),
            spec_collector_of(map@, name@) == spec_collector_of(map@.skip(i as int), name@),
        decreases map@.len() - i,
    {
        proof {
            assert(map@.skip(i as int)[0] == map@[i as int]);
            assert(map@.skip(i as int).drop_first() =~= map@.skip(i as int + 1));
        }
        if crate::paths::str_eq(map[i].0.as_str(), name) {
            return Some(duplicate_plain(&map[i].1));
        }
        i = i + 1;
    }
    proof {
        assert(map@.skip(map@.len() as int).len() == 0);
    }
    None
}

/// The items a resolved grouped collector yields: the looked-up collectors'
/// items, one referenced set after the other, from reference `k` on.
pub open spec fn spec_resolved_items(
    m: Seq<(String, Collector)>,
    names: Seq<Seq<char>>,
    k: int,
) -> Seq<Seq<char>>
    decreases names.len() - k,
{
    if 0 <= k < names.len() {
        (match spec_collector_of(m, names[k]) {
            Some(c) => c.items(),
            None => Seq::empty(),
        }) + spec_resolved_items(m, names, k + 1)
    } else {
        Seq::empty()
    }
}

/// Children that yield the looked-up collectors' items yield the resolved
/// item sequence as a whole.
pub proof fn lemma_resolved_items_agree(
    cs: Seq<Collector>,
    m: Seq<(String, Collector)>,
    names: Seq<Seq<char>>,
    k: int,
)
    requires
        cs.len() == names.len(),
        0 <= k,
        forall|j: int|
            k <= j < names.len() ==> (#[trigger] spec_collector_of(m, names[j])) is Some,
        forall|j: int|
            k <= j < names.len() ==> (#[trigger] cs[j]).items() == spec_collector_of(
                m,
                names[j],
            ).unwrap().items(),
    ensures
        items_from(cs, k) == spec_resolved_items(m, names, k),
    decreases names.len() - k,
{
    if k < names.len() {
        lemma_resolved_items_agree(cs, m, names, k + 1);
    }
}

/// Resolve every grouped collector stub of a loaded collector map: its
/// children become copies of the loaded collectors of the referenced test
/// sets, in reference order, so iterating the resolved collector yields the
/// referenced sets' items one set after the other. The other entries are
/// copied unchanged. Every grouped reference must name a defined test set,
/// which preflight has checked.
#[verifier::loop_isolation(false)]
pub fn resolve_grouped(map: &CollectorMap, tests: &Vec<(String, TestSet)>) -> (r: CollectorMap)
    requires
        map@.len() == tests@.len(),
        forall|i: int| 0 <= i < map@.len() ==> (#[trigger] map@[i]).0@ == tests@[i].0@,
        forall|i: int| 0 <= i < map@.len() ==> (#[trigger] map@[i]).1.plain(),
        !spec_any_bad_grouped_ref(tests@),
    ensures
        r@.len() == map@.len(),
        forall|i: int| 0 <= i < r@.len() ==> (#[trigger] r@[i]).0@ == map@[i].0@,
        forall|i: int| 0 <= i < r@.len() ==> (#[trigger] r@[i]).1.plain(),
        forall|i: int|
            0 <= i < r@.len() ==> (!(tests@[i].1.collector is Grouped) ==> (#[trigger] r@[i]).1.items()
                == map@[i].1.items() && r@[i].1.size_spec() == map@[i].1.size_spec()),
        forall|i: int|
            0 <= i < r@.len() ==> (tests@[i].1.collector is Grouped ==> (#[trigger] r@[i]).1
                is Grouped && r@[i].1.grouped_children().len() == spec_grouped_refs(
                tests@[i].1,
            ).len() && r@[i].1.items() == spec_resolved_items(
                map@,
                spec_grouped_refs(tests@[i].1),
                0,
            )),
{
    let mut out: CollectorMap = Vec::new();
    let mut i: usize = 0;
    while i < map.len()
        invariant
            0 <= i <= map@.len(),
            out@.len() == i,
            forall|q: int| 0 <= q < i ==> (#[trigger] out@[q]).0@ == map@[q].0@,
            forall|q: int| 0 <= q < i ==> (#[trigger] out@[q]).1.plain(),
            forall|q: int|
                0 <= q < i ==> (!(tests@[q].1.collector is Grouped) ==> (#[trigger] out@[q]).1.items()
                    == map@[q].1.items() && out@[q].1.size_spec() == map@[q].1.size_spec()),
            forall|q: int|
                0 <= q < i ==> (tests@[q].1.collector is Grouped ==> (#[trigger] out@[q]).1
                    is Grouped && out@[q].1.grouped_children().len() == spec_grouped_refs(
                    tests@[q].1,
                ).len() && out@[q].1.items() == spec_resolved_items(
                    map@,
                    spec_grouped_refs(tests@[q].1),
                    0,
                )),
        decreases map@.len() - i,
    {
        let name = map[i].0.clone();
        match &tests[i].1.collector {
            CollectorConfig::Grouped { collectors: names } => {
                let ghost refs = spec_grouped_refs(tests@[i as int].1);
                proof {
                    assert(refs == names.deep_view());
                }
                let mut kids: Vec<Collector> = Vec::new();
                let mut j: usize = 0;
                while j < names.len()
                    invariant
                        0 <= j <= names@.len(),
                        kids@.len() == j,
                        forall|q: int|
                            0 <= q < j ==> (#[trigger] spec_collector_of(map@, refs[q])) is Some,
                        forall|q: int| 0 <= q < j ==> (#[trigger] kids@[q]).plain(),
                        forall|q: int|
                            0 <= q < j ==> (#[trigger] kids@[q]).items() == spec_collector_of(
                                map@,
                                refs[q],
                            ).unwrap().items(),
                    decreases names@.len() - j,
                {
                    proof {
                        assert(refs[j as int] == names@[j as int]@);
                        // the reference names a defined set, so the lookup finds it
                        assert(spec_keys(tests@).contains(refs[j as int])) by {
                            if !spec_keys(tests@).contains(refs[j as int]) {
                                assert(spec_grouped_refs(tests@[i as int].1)[j as int] == refs[j as int]);
                                assert(spec_any_bad_grouped_ref(tests@));
                            }
                        }
                        let k = choose|k: int|
                            0 <= k < spec_keys(tests@).len() && spec_keys(tests@)[k] == refs[j as int];
                        assert(map@[k].0@ == refs[j as int]);
                        lemma_collector_of_contains(map@, refs[j as int]);
                    }
                    match find_collector(map, names[j].as_str()) {
                        Some(c) => {
                            let ghost c0 = c;
                            kids.push(c);
                            proof {
                                assert(kids@[j as int] == c0);
                            }
                        },
                        None => {
                            proof {
                                assert(false);
                            }
                        },
                    }
                    j = j + 1;
                }
                let g = Collector::Grouped { collectors: kids };
                proof {
                    lemma_resolved_items_agree(kids@, map@, refs, 0);
                    assert forall|q: int| 0 <= q < kids@.len() implies (#[trigger] kids@[q]).plain() by {}
                    lemma_plain_from_all(kids@, 0);
                }
                out.push((name, g));
            },
            _ => {
                out.push((name, duplicate_plain(&map[i].1)));
            },
        }
        i = i + 1;
    }
    out
}

impl Collector {
    /// Materialize a collector from its configuration: a glob collector walks
    /// its root paths eagerly and keeps what the compiled glob matches; the
    /// GDB stub is empty; a grouped collector starts empty, to be resolved
    /// once all collectors are built.
    #[verifier::loop_isolation(false)]
    pub fn load(config: &CollectorConfig) -> (r: Result<Self, ConfigErrors>)
        requires
            config matches CollectorConfig::Glob { paths, .. } ==> paths@.len() > 0,
        ensures
            config is GDB ==> (r matches Ok(c) && c is GDB && c.items().len() == 0
                && c.size_spec() == 0),
            config is Grouped ==> (r matches Ok(c) && c is Grouped && c.grouped_children().len()
                == 0),
            config matches CollectorConfig::Glob { glob, .. } ==> (r is Ok <==> glob_compiles(
                glob@,
            )),
            config matches CollectorConfig::Glob { glob, .. } ==> (match r {
                Ok(c) => c is Glob && c.plain() && forall|j: int|
                    0 <= j < c.items().len() ==> glob_match(glob@, #[trigger] c.items()[j]),
                Err(e) => e is InvalidGlobs,
            }),
    {
        match config {
            CollectorConfig::GDB { .. } => {
                let c = Collector::GDB { paths: Vec::new() };
                proof {
                    assert(c.items() =~= Seq::<Seq<char>>::empty());
                }
                Ok(c)
            },
            CollectorConfig::Grouped { .. } => Ok(Collector::Grouped { collectors: Vec::new() }),
            CollectorConfig::Glob { paths, glob, path } => {
                let filter = match compile_glob(glob.as_str()) {
                    Ok(f) => f,
                    Err(e) => {
                        return Err(ConfigErrors::InvalidGlobs(e));
                    },
                };
                let mut builder = walk_builder_new(&paths[0]);
                let mut i: usize = 1;
                while i < paths.len()
                    invariant
                        1 <= i,
                    decreases paths@.len() - i,
                {
                    walk_builder_add(&mut builder, &paths[i]);
                    i = i + 1;
                }
                match path {
                    Some(p) => {
                        walk_builder_add(&mut builder, p);
                    },
                    None => {},
                }
                let mut walk = walk_build(&builder);
                let mut found: Vec<String> = Vec::new();
                let mut fuel: usize = usize::MAX;
                while fuel > 0
                    decreases fuel,
                {
                    match walk_next(&mut walk) {
                        None => {
                            break ;
                        },
                        Some(Some(p)) => {
                            found.push(p);
                        },
                        Some(None) => {},
                    }
                    fuel = fuel - 1;
                }
                proof {
                    assert(found.deep_view().skip(0) =~= found.deep_view());
                }
                let kept = filter_with(&filter, found, 0);
                let c = Collector::Glob { paths: kept };
                proof {
                    lemma_glob_filter_all(filter.pattern_spec(), found.deep_view());
                    let items = c.items();
                    assert forall|j: int| 0 <= j < items.len() implies glob_match(
                        glob@,
                        #[trigger] items[j],
                    ) by {
                        assert(items[j] == kept.deep_view()[kept.deep_view().len() - 1 - j]);
                    }
                }
                Ok(c)
            },
        }
    }

    /// Whether this collector is free of `FS` and `MPI` wrappers.
    #[verifier::loop_isolation(false)]
    pub fn is_plain(&self) -> (r: bool)
        ensures
            r == self.plain(),
        decreases *self, 0int,
    {
        match self {
            Collector::Glob { .. } => true,
            Collector::GDB { .. } => true,
            Collector::Grouped { collectors } => {
                let ghost cs = collectors@;
                let mut i: usize = 0;
                while i < collectors.len()
                    invariant
                        0 <= i <= cs.len(),
                        forall|j: int| 0 <= j < i ==> (#[trigger] cs[j]).plain(),
                    decreases collectors.len() - i,
                {
                    if !collectors[i].is_plain() {
                        proof {
                            if plain_from(cs, 0) {
                                lemma_plain_from_elem(cs, 0, i as int);
                            }
                        }
                        return false;
                    }
                    i = i + 1;
                }
                proof {
                    lemma_plain_from_all(cs, 0);
                }
                true
            },
            Collector::FS { .. } => false,
            Collector::MPI(_) => false,
        }
    }

    /// Whether this collector can be iterated: plain, or an `FS` wrapper
    /// around a plain collector.
    pub fn is_runnable(&self) -> (r: bool)
        ensures
            r == self.runnable(),
    {
        match self {
            Collector::FS { inner } => inner.is_plain(),
            Collector::MPI(_) => false,
            other => other.is_plain(),
        }
    }

    /// Wrap a collector so that its paths are claimed through the filesystem
    /// protocol before being yielded.
    pub fn fs(collector: Self) -> (r: Self)
        ensures
            r is FS,
            r.fs_inner() == collector,
    {
        Collector::FS { inner: Box::new(collector) }
    }

    /// Wrap a collector for the coordinated distribution mode.
    pub fn mpi(collector: Self) -> (r: Self)
        ensures
            r is MPI,
    {
        Collector::MPI(MPICollector::new(collector))
    }

    /// Join two collectors into one grouped collector, absorbing existing
    /// grouped collectors instead of nesting them.
    pub fn join(self, other: Self) -> (r: Self)
        ensures
            r is Grouped,
            r.grouped_children() == spec_join_children(self, other),
            r.flat_count() == self.flat_count() + other.flat_count(),
    {
        proof {
            lemma_join_children_count(self, other);
        }
        match self {
            Collector::Grouped { mut collectors } => {
                match other {
                    Collector::Grouped { collectors: mut other_collectors } => {
                        collectors.append(&mut other_collectors);
                    },
                    non_grouped => {
                        collectors.push(non_grouped);
                    },
                }
                Collector::Grouped { collectors }
            },
            non_grouped => match other {
                Collector::Grouped { mut collectors } => {
                    let ghost a = non_grouped;
                    let ghost cs0 = collectors@;
                    collectors.insert(0, non_grouped);
                    proof {
                        assert(collectors@ =~= seq![a] + cs0);
                    }
                    Collector::Grouped { collectors }
                },
                other_non_grouped => Collector::Grouped {
                    collectors: vec![non_grouped, other_non_grouped],
                },
            },
        }
    }

    /// The exact number of remaining paths for plain collectors (the sum of
    /// the children's sizes for a grouped one); for an `FS` collector the
    /// inner size, an upper bound.
    #[verifier::loop_isolation(false)]
    pub fn size_hint(&self) -> (r: (usize, Option<usize>))
        requires
            self.runnable(),
            self.size_spec() <= usize::MAX,
        ensures
            r.0 == self.size_spec(),
            r.1 == Some(r.0),
        decreases *self, 0int,
    {
        match self {
            Collector::Glob { paths } => (paths.len(), Some(paths.len())),
            Collector::GDB { paths } => (paths.len(), Some(paths.len())),
            Collector::Grouped { collectors } => {
                let ghost cs = collectors@;
                let mut sum: usize = 0;
                let mut i: usize = 0;
                while i < collectors.len()
                    invariant
                        0 <= i <= collectors.len(),
                        sum + size_from(cs, i as int) == size_from(cs, 0),
                    decreases collectors.len() - i,
                {
                    proof {
                        lemma_plain_from_elem(cs, 0, i as int);
                        lemma_plain_runnable(cs[i as int]);
                        assert(size_from(cs, i as int) == cs[i as int].size_spec() + size_from(
                            cs,
                            i as int + 1,
                        ));
                    }
                    let (s, _) = collectors[i].size_hint();
                    sum = sum + s;
                    i = i + 1;
                }
                (sum, Some(sum))
            },
            Collector::FS { inner } => {
                proof {
                    lemma_plain_runnable(self.fs_inner());
                }
                inner.size_hint()
            },
            Collector::MPI(_) => {
                proof {
                    assert(false);
                }
                (0, None)
            },
        }
    }

    /// The remaining size as `size_hint` gives it, saturated at the machine's
    /// maximum: a variant whose precondition any caller of a runnable
    /// collector can meet.
    #[verifier::loop_isolation(false)]
    pub fn size_hint_saturating(&self) -> (r: usize)
        requires
            self.runnable(),
        ensures
            self.size_spec() <= usize::MAX ==> r == self.size_spec(),
            self.size_spec() > usize::MAX ==> r == usize::MAX,
        decreases *self, 0int,
    {
        match self {
            Collector::Glob { paths } => paths.len(),
            Collector::GDB { paths } => paths.len(),
            Collector::Grouped { collectors } => {
                let ghost cs = collectors@;
                let ghost mut prefix: nat = 0;
                let mut sum: usize = 0;
                let mut i: usize = 0;
                while i < collectors.len()
                    invariant
                        0 <= i <= collectors.len(),
                        prefix + size_from(cs, i as int) == size_from(cs, 0),
                        prefix <= usize::MAX ==> sum == prefix,
                        prefix > usize::MAX ==> sum == usize::MAX,
                    decreases collectors.len() - i,
                {
                    proof {
                        lemma_plain_from_elem(cs, 0, i as int);
                        lemma_plain_runnable(cs[i as int]);
                        assert(size_from(cs, i as int) == cs[i as int].size_spec() + size_from(
                            cs,
                            i as int + 1,
                        ));
                    }
                    let s = collectors[i].size_hint_saturating();
                    sum = if s > usize::MAX - sum {
                        usize::MAX
                    } else {
                        sum + s
                    };
                    proof {
                        prefix = prefix + cs[i as int].size_spec();
                    }
                    i = i + 1;
                }
                sum
            },
            Collector::FS { inner } => {
                proof {
                    lemma_plain_runnable(self.fs_inner());
                }
                inner.size_hint_saturating()
            },
            Collector::MPI(_) => {
                proof {
                    assert(false);
                }
                0
            },
        }
    }

    /// Yield the next work path.
    ///
    /// A plain collector yields exactly its items, in order. An `FS` collector
    /// yields a claimed receipt for the first inner path it wins the rename
    /// race on; every yielded receipt carries the `[processing]_` prefix.
    pub fn next(&mut self) -> (r: Option<PathValue>)
        requires
            old(self).runnable(),
        ensures
            final(self).runnable(),
            old(self).plain() ==> final(self).plain(),
            old(self).plain() && old(self).items().len() == 0 ==> r is None && final(self).items()
                == old(self).items(),
            old(self).plain() && old(self).items().len() > 0 ==> match r {
                Some(pv) => pv is Buf && pv.path_spec() == old(self).items()[0]
                    && final(self).items() == old(self).items().skip(1),
                None => false,
            },
            (*old(self)) is FS ==> (*final(self)) is FS && match r {
                None => final(self).fs_inner().items().len() == 0,
                Some(pv) => pv is Wrapped && exists|i: int|
                    0 <= i < old(self).fs_inner().items().len() && pv.path_spec()
                        == spec_processing_path(old(self).fs_inner().items()[i])
                        && final(self).fs_inner().items() == old(self).fs_inner().items().skip(
                        i + 1,
                    ),
            },
    {
        match self {
            Collector::FS { inner } => fs_next(inner),
            Collector::MPI(_) => {
                proof {
                    assert(false);
                }
                None
            },
            other => plain_next(other),
        }
    }
}

} // verus!
