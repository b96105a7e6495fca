use vstd::prelude::*;
use include_dir::Dir;
use glob::PatternError;
use crate::extracted::{string_views, ExtractedProtoDir};

verus! {

#[verifier::external_type_specification]
#[verifier::external_body]
pub struct ExDir<'a>(Dir<'a>);

#[verifier::external_type_specification]
#[verifier::external_body]
pub struct ExPatternError(PatternError);

/// The name of the child directory that a tree is always written to.
pub const PROTO_SUBDIR: &'static str = "proto";

/// The glob that selects the Protobuf definitions of a tree, at any depth.
pub const PROTO_GLOB: &'static str = "**/*.proto";

/// What `Path::new(base).join(segment)` gives, as a string.
pub uninterp spec fn path_join(base: Seq<char>, segment: Seq<char>) -> Seq<char>;

/// The paths of all entries of an embedded tree (what `DirEntry::path` gives for each),
/// files and directories, at any depth, in the order in which `Dir::find` visits them.
pub uninterp spec fn walk_order(d: Dir<'_>) -> Seq<Seq<char>>;

/// The extension that marks a Protobuf definition.
pub open spec fn proto_extension() -> Seq<char> {
    seq!['.', 'p', 'r', 'o', 't', 'o']
}

/// The glob `**/*.proto`, character by character.
pub open spec fn proto_glob() -> Seq<char> {
    seq!['*', '*', '/', '*', '.', 'p', 'r', 'o', 't', 'o']
}

/// A path names a Protobuf definition when it ends in `.proto`.
pub open spec fn is_proto_path(p: Seq<char>) -> bool {
    p.len() >= proto_extension().len()
        && p.subrange(p.len() - proto_extension().len(), p.len() as int) == proto_extension()
}

/// The paths of the Protobuf definitions of a tree, in the order in which the tree is
/// walked.
pub open spec fn proto_paths(d: Dir<'_>) -> Seq<Seq<char>> {
    walk_order(d).filter(|p: Seq<char>| is_proto_path(p))
}

/// The directory that a tree is written to, given the output directory.
pub open spec fn destination_of(out_dir: Seq<char>) -> Seq<char> {
    path_join(out_dir, PROTO_SUBDIR@)
}

/// Relies on `std::path::Path::join`; both parts are UTF-8, so the joined path is too
/// and turning it back into a string loses nothing.
#[verifier::external_body]
fn join_path(base: &str, segment: &str) -> (r: String)
    ensures
        r@ == path_join(base@, segment@),
{
    std::path::Path::new(base).join(segment).to_string_lossy().into_owned()
}

/// Relies on `include_dir::Dir::find`: it parses the glob with `glob::Pattern::new`,
/// walks every entry of the tree at any depth, in a fixed order (a stack of entries,
/// each popped entry pushing its children), and yields, in that order, each one whose
/// path the pattern matches under the default match options. `**/*.proto` parses, and
/// under those options matches exactly the paths that end in `.proto`.
#[verifier::external_body]
fn find_paths<'a>(d: &Dir<'a>, pattern: &str) -> (r: Result<Vec<String>, PatternError>)
    requires
        pattern@ == proto_glob(),
    ensures
        r is Ok,
        r is Ok ==> string_views(r->Ok_0@) == walk_order(*d).filter(
            |p: Seq<char>| is_proto_path(p),
        ),
{
    d.find(pattern).map(|found| found.map(|e| e.path().to_string_lossy().into_owned()).collect())
}

/// A directory tree of Protobuf definitions, embedded in the program.
pub struct ProtoDir<'a> {
    /// The embedded tree.
    pub dir: Dir<'a>,
}

impl<'a> AsRef<Dir<'a>> for ProtoDir<'a> {
    fn as_ref(&self) -> (r: &Dir<'a>)
        ensures
            *r == self.dir,
    {
        &self.dir
    }
}

/// What writing the tree `d` out under `out_dir` results in: the tree lands in the
/// `proto` child of `out_dir`, and the recorded paths are the `.proto` entries of the
/// tree, at any depth, each as often as the walk meets it and in the walk's order.
pub open spec fn laid_out(d: Dir<'_>, out_dir: Seq<char>, r: ExtractedProtoDir) -> bool {
    &&& r.dest() == destination_of(out_dir)
    &&& r.found() == proto_paths(d)
}

/// The directory that a tree written out under `out_dir` lands in:
/// `out_dir` joined with `proto`.
pub fn destination(out_dir: &str) -> (r: String)
    ensures
        r@ == destination_of(out_dir@),
{
    join_path(out_dir, PROTO_SUBDIR)
}

impl<'a> ProtoDir<'a> {
    /// Where the tree lands when written out under `out_dir`, and which of its
    /// entries are Protobuf definitions. The tree itself is written by
    /// `Dir::extract` to [`destination`]`(out_dir)`.
    pub fn layout(&self, out_dir: &str) -> (r: ExtractedProtoDir)
        ensures
            laid_out(self.dir, out_dir@, r),
    {
        let path = destination(out_dir);
        proof {
            reveal_strlit("**/*.proto");
            assert(PROTO_GLOB@ == "**/*.proto"@);
            assert("**/*.proto"@ =~= proto_glob());
        }
        let files = match find_paths(&self.dir, PROTO_GLOB) {
            Ok(files) => files,
            // not reached: `find_paths` accepts this pattern
            Err(_) => Vec::new(),
        };
        ExtractedProtoDir::new(path, files)
    }
}

/// Filter completeness: every `.proto` entry of the tree, however deeply nested, is
/// recorded, and every recorded path is a `.proto` entry of the tree.
pub proof fn lemma_protos_exactly_proto_entries(d: Dir<'_>, out_dir: Seq<char>, r: ExtractedProtoDir)
    requires
        laid_out(d, out_dir, r),
    ensures
        forall|p: Seq<char>|
            walk_order(d).contains(p) && is_proto_path(p) ==> #[trigger] r.found().contains(p),
        forall|i: int|
            0 <= i < r.found().len() ==> walk_order(d).contains(#[trigger] r.found()[i])
                && is_proto_path(r.found()[i]),
{
    let pred = |p: Seq<char>| is_proto_path(p);
    assert forall|p: Seq<char>| walk_order(d).contains(p) && is_proto_path(p) implies
        #[trigger] r.found().contains(p) by {
        let k = choose|k: int| 0 <= k < walk_order(d).len() && walk_order(d)[k] == p;
        walk_order(d).lemma_filter_contains(pred, k);
    }
    assert forall|i: int| 0 <= i < r.found().len() implies walk_order(d).contains(
        #[trigger] r.found()[i],
    ) && is_proto_path(r.found()[i]) by {
        walk_order(d).lemma_filter_pred(pred, i);
        assert(r.found().contains(r.found()[i]));
        walk_order(d).lemma_filter_contains_rev(pred, r.found()[i]);
    }
}

/// Filtering keeps a sequence free of duplicates.
proof fn lemma_filter_no_duplicates(s: Seq<Seq<char>>, pred: spec_fn(Seq<char>) -> bool)
    requires
        s.no_duplicates(),
    ensures
        s.filter(pred).no_duplicates(),
    decreases s.len(),
{
    reveal(Seq::filter);
    if s.len() > 0 {
        let rest = s.drop_last();
        assert(rest.no_duplicates());
        lemma_filter_no_duplicates(rest, pred);
        if pred(s.last()) {
            if rest.filter(pred).contains(s.last()) {
                rest.lemma_filter_contains_rev(pred, s.last());
                let k = choose|k: int| 0 <= k < rest.len() && rest[k] == s.last();
                assert(s[k] == s[s.len() - 1]);
            }
        }
    }
}

/// One record per match: the list holds as many paths as the walk meets `.proto`
/// entries, and where the tree's entry paths are distinct, no path is recorded twice.
pub proof fn lemma_each_match_recorded_once(d: Dir<'_>, out_dir: Seq<char>, r: ExtractedProtoDir)
    requires
        laid_out(d, out_dir, r),
    ensures
        r.found().len() == walk_order(d).filter(|p: Seq<char>| is_proto_path(p)).len(),
        walk_order(d).no_duplicates() ==> r.found().no_duplicates(),
{
    if walk_order(d).no_duplicates() {
        lemma_filter_no_duplicates(walk_order(d), |p: Seq<char>| is_proto_path(p));
    }
}

/// Idempotence: laying the same tree out twice under the same output directory gives
/// the same destination and the same recorded paths, in the same order.
pub proof fn lemma_layout_idempotent(
    d: Dir<'_>,
    out_dir: Seq<char>,
    first: ExtractedProtoDir,
    second: ExtractedProtoDir,
)
    requires
        laid_out(d, out_dir, first),
        laid_out(d, out_dir, second),
    ensures
        first.dest() == second.dest(),
        first.found() == second.found(),
{
}

} // verus!
