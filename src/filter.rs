use vstd::prelude::*;

use crate::error::GrepError;

verus! {

#[verifier::external_type_specification]
#[verifier::external_body]
pub struct ExGlobSet(globset::GlobSet);

#[verifier::external_type_specification]
#[verifier::external_body]
pub struct ExGlobError(globset::Error);

/// Whether `glob`, with the default options, both parses and compiles into
/// a matcher.
pub uninterp spec fn glob_compiles(glob: Seq<char>) -> bool;

/// Whether the path `path` is accepted by the glob `glob`.
pub uninterp spec fn glob_matches(glob: Seq<char>, path: Seq<char>) -> bool;

/// Relies on `globset::Glob::new` followed by `globset::GlobSet::new` on that
/// one glob: either step returns an error instead of panicking, the first on
/// a glob that does not parse, the second on one whose regex cannot be built.
#[verifier::external_body]
fn glob_set_new(glob: &str) -> (r: Result<globset::GlobSet, globset::Error>)
    ensures
        r is Ok <==> glob_compiles(glob@),
{
    globset::GlobSet::new([globset::Glob::new(glob)?])
}

/// What the directory walk does with one entry.
#[derive(Debug, Clone, Copy, PartialEq, Eq)]
pub enum Visit {
    /// A directory: walk into it.
    Descend,
    /// A file whose path the glob accepts: search it.
    Search,
    /// A file that the glob does not accept.
    Skip,
}

/// The glob that selects which files are searched, compiled once.
///
/// Both fields are set only by `new`, so `set` is always compiled from
/// `source`.
pub struct FileFilter {
    source: String,
    set: globset::GlobSet,
}

impl View for FileFilter {
    type V = Seq<char>;

    closed spec fn view(&self) -> Seq<char> {
        self.source@
    }
}

impl FileFilter {
    /// Compiles the glob `glob`.
    pub fn new(glob: &str) -> (r: Result<FileFilter, GrepError>)
        ensures
            r is Ok <==> glob_compiles(glob@),
            match r {
                Ok(f) => f@ == glob@,
                Err(e) => e matches GrepError::InvalidGlob { glob: g, .. } && g@ == glob@,
            },
    {
        match glob_set_new(glob) {
            Ok(set) => Ok(FileFilter { source: glob.to_owned(), set }),
            Err(e) => Err(GrepError::InvalidGlob { glob: glob.to_owned(), reason: e.to_string() }),
        }
    }

    /// Relies on `globset::GlobSet::is_match`: whether the glob accepts
    /// `path`.
    #[verifier::external_body]
    fn accepts(&self, path: &str) -> (r: bool)
        ensures
            r == glob_matches(self@, path@),
    {
        self.set.is_match(path)
    }

    /// Decides what the walk does with the entry at `path`: directories are
    /// entered, files are searched or skipped as the glob says.
    pub fn visit(&self, path: &str, is_dir: bool) -> (r: Visit)
        ensures
            r is Descend <==> is_dir,
            !is_dir ==> (r is Search <==> glob_matches(self@, path@)),
    {
        if is_dir {
            Visit::Descend
        } else if self.accepts(path) {
            Visit::Search
        } else {
            Visit::Skip
        }
    }
}

} // verus!
