use vstd::prelude::*;
use vstd::string::StringExecFns;

verus! {

/// The contents of a sequence of strings.
pub open spec fn string_views(v: Seq<String>) -> Seq<Seq<char>> {
    v.map_values(|f: String| f@)
}

/// A tree of Protobuf definitions that was written out to disk: the directory it was
/// written to, and the paths of its `.proto` entries relative to that directory.
pub struct ExtractedProtoDir {
    path: String,
    files: Vec<String>,
}

impl ExtractedProtoDir {
    /// The directory that the tree was written to.
    pub closed spec fn dest(&self) -> Seq<char> {
        self.path@
    }

    /// The relative paths of the `.proto` entries, in the order in which they were found.
    pub closed spec fn found(&self) -> Seq<Seq<char>> {
        string_views(self.files@)
    }

    pub(crate) fn new(path: String, files: Vec<String>) -> (r: Self)
        ensures
            r.dest() == path@,
            r.found() == string_views(files@),
    {
        ExtractedProtoDir { path, files }
    }

    /// A glob that covers everything below the destination directory, for
    /// build-invalidation watches.
    pub fn to_glob(&self) -> (r: String)
        ensures
            r@ == self.dest() + "/**"@,
    {
        let mut glob = self.path.clone();
        glob.append("/**");
        glob
    }

    /// The directory that the tree was written to.
    pub fn as_path(&self) -> (r: &str)
        ensures
            r@ == self.dest(),
    {
        self.path.as_str()
    }

    /// The relative paths of the `.proto` entries.
    pub fn protos(&self) -> (r: &[String])
        ensures
            string_views(r@) == self.found(),
    {
        self.files.as_slice()
    }
}

} // verus!
