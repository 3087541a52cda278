//! What the subcommands share: the context from global flags and the document
//! root under a scope.
use std::path::Path;
use std::path::PathBuf;

use vstd::prelude::*;

use crate::io::Diagnostics;
use crate::safety::{canonicalize, is_dir, path_buf, path_buf_of};

verus! {

broadcast use vstd::string::group_string_axioms;

/// Cross-command context from the global flags.
pub struct Ctx {
    pub diagnostics: Diagnostics,
    pub pretty: bool,
}

/// The name of the document root under a scope: one constant, so that the
/// derivation of the root and the code walk's exclusion cannot drift apart.
pub const DOCUMENT_ROOT_DIR: &'static str = "spec";

/// Why a scope has no usable document root.
#[derive(Debug, Clone, PartialEq, Eq)]
pub enum DocumentRootError {
    /// `<scope>/spec` does not exist, or is not a directory.
    Missing { path: String },
}

/// The message of a missing document root at `path`.
pub open spec fn missing_root_message(path: Seq<char>) -> Seq<char> {
    "no document root at '"@ + path + "': spec documents live in `"@ + DOCUMENT_ROOT_DIR@
        + "/` under --scope; point --scope at the repository root, or create "@
        + DOCUMENT_ROOT_DIR@ + "/"@
}

impl DocumentRootError {
    /// Stable machine token for `--diagnostics json`.
    pub fn kind(&self) -> (k: &'static str)
        ensures
            k@ == "MissingDocumentRoot"@,
    {
        match self {
            DocumentRootError::Missing { .. } => "MissingDocumentRoot",
        }
    }

    /// The error as one line of text.
    pub fn message(&self) -> (s: String)
        ensures
            (match self {
                DocumentRootError::Missing { path } => s@ == missing_root_message(path@),
            }),
    {
        match self {
            DocumentRootError::Missing { path } => {
                let mut s = String::from_str("no document root at '");
                s.append(path.as_str());
                s.append("': spec documents live in `");
                s.append(DOCUMENT_ROOT_DIR);
                s.append("/` under --scope; point --scope at the repository root, or create ");
                s.append(DOCUMENT_ROOT_DIR);
                s.append("/");
                s
            },
        }
    }
}

/// `Path::join` as text: `name` under `base`.
pub uninterp spec fn path_join(base: Seq<char>, name: Seq<char>) -> Seq<char>;

/// `base` joined with `name` (`Path::join`), as text: an absolute `name`
/// replaces `base`, as `PathBuf::push` documents; otherwise the result is
/// named [`path_join`] of the two texts. The text is the path's own, since a
/// path made from a `&str` is valid Unicode.
#[verifier::external_body]
pub(crate) fn join_text(base: &str, name: &str) -> (r: String)
    ensures
        r@ == path_join(base@, name@),
        name@.len() > 0 && name@[0] == '/' ==> r@ == name@,
{
    Path::new(base).join(name).to_string_lossy().into_owned()
}

/// What a document root resolves to, given the root's text, its path, and
/// what the file system said of it: `None` when it is not a directory, else
/// what canonicalizing it returned.
pub open spec fn spec_root_outcome(
    root: String,
    root_buf: PathBuf,
    canonical: Option<Result<PathBuf, std::io::Error>>,
) -> Result<PathBuf, DocumentRootError> {
    match canonical {
        None => Err(DocumentRootError::Missing { path: root }),
        Some(Ok(c)) => Ok(c),
        Some(Err(_)) => Ok(root_buf),
    }
}

/// Decide the document root from what the file system said of it: a root
/// that is not a directory is missing; a canonical form wins where there is
/// one; a directory that cannot be canonicalized is kept as it is.
pub fn root_outcome(
    root: String,
    root_buf: PathBuf,
    canonical: Option<Result<PathBuf, std::io::Error>>,
) -> (r: Result<PathBuf, DocumentRootError>)
    ensures
        r == spec_root_outcome(root, root_buf, canonical),
{
    match canonical {
        None => Err(DocumentRootError::Missing { path: root }),
        Some(Ok(c)) => Ok(c),
        Some(Err(_)) => Ok(root_buf),
    }
}

/// Derive the document root from a scope: documents live in `<scope>/spec`,
/// never at the repository root. A missing root is a named error: silently
/// walking the whole scope instead is how a repository-wide crawl goes
/// unnoticed. The root is canonicalized when it resolves, so that every
/// command agrees on it; a directory that cannot be canonicalized is kept as
/// it is. Whether the root is a directory, and its canonical form, come from
/// the file system; whatever they are, the result is [`root_outcome`] of
/// them for the root `<scope>/spec`.
pub fn spec_root_of(scope: &str) -> (r: Result<PathBuf, DocumentRootError>)
    ensures
        exists|root: String, canonical: Option<Result<PathBuf, std::io::Error>>|
            root@ == path_join(scope@, DOCUMENT_ROOT_DIR@) && r == spec_root_outcome(
                root,
                path_buf(root@),
                canonical,
            ),
        r matches Err(DocumentRootError::Missing { path }) ==> path@ == path_join(
            scope@,
            DOCUMENT_ROOT_DIR@,
        ),
{
    let root = join_text(scope, DOCUMENT_ROOT_DIR);
    let root_buf = path_buf_of(root.as_str());
    let canonical = if is_dir(&root_buf) {
        Some(canonicalize(&root_buf))
    } else {
        None
    };
    let ghost root_view = root;
    let ghost canonical_view = canonical;
    let r = root_outcome(root, root_buf, canonical);
    assert(r == spec_root_outcome(root_view, path_buf(root_view@), canonical_view));
    r
}

} // verus!
