//! Path-safety guard.
//!
//! Every path argument must:
//!
//! 1. contain no `..` component, even where the resolved path would have been
//!    harmless: the sandbox is a process-boundary contract;
//! 2. name an existing directory (`--module`) or file (`--data`, documents);
//! 3. resolve cleanly: a symlink loop is refused as a traversal, so that it is
//!    told apart from a plain missing file.
use std::path::{Path, PathBuf};

use vstd::prelude::*;

use crate::text::{chars_of, same_chars, split_chars, split_on};

verus! {

broadcast use vstd::string::group_string_axioms;

#[verifier::external_type_specification]
#[verifier::external_body]
pub struct ExPathBuf(PathBuf);

#[verifier::external_type_specification]
#[verifier::external_body]
pub struct ExIoError(std::io::Error);

/// Why a path was refused as a traversal.
#[derive(Debug, Clone, Copy, PartialEq, Eq, Structural)]
pub enum PathTraversalReason {
    /// The path has a `..` component.
    DotDotSegment,
    /// Resolving the path ran into a symlink loop.
    SymlinkEscape,
}

/// Why a path argument was refused.
#[derive(Debug)]
pub enum PathError {
    /// A sandbox refusal.
    Traversal { argument: String, path: String, reason: PathTraversalReason },
    /// The path could not be resolved (missing, unreadable).
    Io { argument: String, source: std::io::Error },
    /// The path resolved, but not to a directory.
    NotADirectory(String),
    /// The path resolved, but not to a regular file.
    NotAFile(String),
}

/// The text of a traversal reason.
pub open spec fn reason_text(reason: PathTraversalReason) -> Seq<char> {
    match reason {
        PathTraversalReason::DotDotSegment => "a '..' segment is not allowed"@,
        PathTraversalReason::SymlinkEscape => "it resolves through a symlink loop"@,
    }
}

/// The `std::io::Error` as its display text (`Display`). The error is opaque
/// here and its text comes from the platform, so nothing is stated of it.
#[verifier::external_body]
fn io_error_text(e: &std::io::Error) -> (s: String) {
    format!("{e}")
}

impl PathError {
    /// The error as one line of text.
    pub fn message(&self) -> (s: String)
        ensures
            (match self {
                PathError::Traversal { argument, path, reason } => s@ == "PathTraversal: "@
                    + argument@ + " '"@ + path@ + "': "@ + reason_text(*reason),
                PathError::Io { argument, .. } => s@.len() >= argument@.len() + 2 && s@.subrange(
                    0,
                    argument@.len() + 2int,
                ) == argument@ + ": "@,
                PathError::NotADirectory(p) => s@ == "PathNotADirectory: '"@ + p@
                    + "' is not a directory"@,
                PathError::NotAFile(p) => s@ == "PathNotAFile: '"@ + p@
                    + "' is not a regular file"@,
            }),
    {
        match self {
            PathError::Traversal { argument, path, reason } => {
                let mut s = String::from_str("PathTraversal: ");
                s.append(argument.as_str());
                s.append(" '");
                s.append(path.as_str());
                s.append("': ");
                match reason {
                    PathTraversalReason::DotDotSegment => s.append("a '..' segment is not allowed"),
                    PathTraversalReason::SymlinkEscape => s.append(
                        "it resolves through a symlink loop",
                    ),
                }
                s
            },
            PathError::Io { argument, source } => {
                let mut s = String::from_str(argument.as_str());
                s.append(": ");
                let ghost head = s@;
                let t = io_error_text(source);
                s.append(t.as_str());
                proof {
                    reveal_strlit(": ");
                    assert(s@.subrange(0, argument@.len() + 2int) =~= head);
                }
                s
            },
            PathError::NotADirectory(p) => {
                let mut s = String::from_str("PathNotADirectory: '");
                s.append(p.as_str());
                s.append("' is not a directory");
                s
            },
            PathError::NotAFile(p) => {
                let mut s = String::from_str("PathNotAFile: '");
                s.append(p.as_str());
                s.append("' is not a regular file");
                s
            },
        }
    }
}

/// Whether `raw` has a `..` component. `Path::components` yields a parent-dir
/// component exactly for a `..` between separators.
pub open spec fn has_dotdot(raw: Seq<char>) -> bool {
    exists|i: int| 0 <= i < split_on(raw, '/').len() && #[trigger] split_on(raw, '/')[i] == ".."@
}

/// The traversal refusal of `raw` under `argument`.
pub open spec fn is_traversal(e: PathError, argument: Seq<char>, raw: Seq<char>, reason: PathTraversalReason) -> bool {
    e matches PathError::Traversal { argument: a, path: p, reason: r } && a@ == argument && p@ == raw
        && r == reason
}

/// Refuse `raw` when it has a `..` component.
pub fn reject_dotdot(argument: &str, raw: &str) -> (r: Result<(), PathError>)
    ensures
        has_dotdot(raw@) <==> r is Err,
        r matches Err(e) ==> is_traversal(e, argument@, raw@, PathTraversalReason::DotDotSegment),
{
    let path = chars_of(raw);
    let parts = split_chars(&path, '/');
    let dots = chars_of("..");
    let ghost segs = split_on(raw@, '/');
    let mut i: usize = 0;
    while i < parts.len()
        invariant
            i <= parts@.len(),
            parts.deep_view() == segs,
            segs == split_on(raw@, '/'),
            dots@ == ".."@,
            forall|k: int| 0 <= k < i ==> #[trigger] segs[k] != ".."@,
        decreases parts@.len() - i,
    {
        assert(parts.deep_view()[i as int] == parts@[i as int]@);
        if same_chars(&parts[i], &dots) {
            return Err(
                PathError::Traversal {
                    argument: String::from_str(argument),
                    path: String::from_str(raw),
                    reason: PathTraversalReason::DotDotSegment,
                },
            );
        }
        i = i + 1;
    }
    Ok(())
}

/// The OS error number of a symlink loop (`ELOOP`) on Linux.
pub fn libc_eloop() -> (n: i32)
    ensures
        n == 40,
{
    40
}

/// The raw OS error number an I/O error carries, if any
/// (`std::io::Error::raw_os_error`). The error is opaque here, so nothing is
/// stated of the number; the classification that uses it is proved for every
/// value.
#[verifier::external_body]
fn raw_os_error(e: &std::io::Error) -> (code: Option<i32>) {
    e.raw_os_error()
}

/// How a resolution failure reads: a symlink loop (`ELOOP`) is a traversal
/// refusal, any other failure an I/O error under `<argument> '<raw>'`.
pub fn classify_io(argument: &str, raw: &str, err: std::io::Error, code: Option<i32>) -> (e: PathError)
    ensures
        code == Some(40i32) ==> is_traversal(e, argument@, raw@, PathTraversalReason::SymlinkEscape),
        code != Some(40i32) ==> (e matches PathError::Io { argument: a, source } && a@ == argument@
            + " '"@ + raw@ + "'"@ && source == err),
{
    match code {
        Some(c) => {
            if c == libc_eloop() {
                return PathError::Traversal {
                    argument: String::from_str(argument),
                    path: String::from_str(raw),
                    reason: PathTraversalReason::SymlinkEscape,
                };
            }
        },
        None => {},
    }
    let mut a = String::from_str(argument);
    a.append(" '");
    a.append(raw);
    a.append("'");
    PathError::Io { argument: a, source: err }
}

/// The refusal a resolution failure `err` of `raw` under `argument` reads
/// as: a symlink loop, or the I/O error itself under `<argument> '<raw>'`.
pub open spec fn io_refusal(
    e: PathError,
    argument: Seq<char>,
    raw: Seq<char>,
    err: std::io::Error,
) -> bool {
    ||| is_traversal(e, argument, raw, PathTraversalReason::SymlinkEscape)
    ||| (e matches PathError::Io { argument: a, source } && a@ == argument + " '"@ + raw + "'"@
        && source == err)
}

/// Map a resolution failure of `raw` under `argument` to a [`PathError`].
pub fn map_io(argument: &str, raw: &str, err: std::io::Error) -> (e: PathError)
    ensures
        io_refusal(e, argument@, raw@, err),
        e is Traversal ==> is_traversal(e, argument@, raw@, PathTraversalReason::SymlinkEscape),
        e matches PathError::Io { argument: a, .. } ==> a@ == argument@ + " '"@ + raw@ + "'"@,
        e is Traversal || e is Io,
{
    let code = raw_os_error(&err);
    classify_io(argument, raw, err, code)
}

/// Whether a path is absolute (`Path::is_absolute`): a function of the path
/// alone.
pub uninterp spec fn path_is_absolute(p: PathBuf) -> bool;

/// Resolve `p` with every symlink followed (`Path::canonicalize`). Which
/// path comes back, or which error, depends on the file system; what the
/// documentation promises of every success is stated: it is absolute.
#[verifier::external_body]
pub(crate) fn canonicalize(p: &PathBuf) -> (r: Result<PathBuf, std::io::Error>)
    ensures
        r matches Ok(c) ==> path_is_absolute(c),
{
    p.canonicalize()
}

/// Whether `p` names an existing directory (`Path::is_dir`); it depends on the
/// file system, so nothing is stated of it.
#[verifier::external_body]
pub(crate) fn is_dir(p: &PathBuf) -> (b: bool) {
    p.is_dir()
}

/// Whether `p` names an existing regular file (`Path::is_file`); it depends on
/// the file system, so nothing is stated of it.
#[verifier::external_body]
fn is_file(p: &PathBuf) -> (b: bool) {
    p.is_file()
}

/// The refusals a resolved `raw` can meet under `argument`: traversal (a `..`
/// component, or a symlink loop), an I/O failure, or the wrong kind of entry.
pub open spec fn resolution_refusal(
    e: PathError,
    argument: Seq<char>,
    raw: Seq<char>,
    dir: bool,
) -> bool {
    ||| is_traversal(e, argument, raw, PathTraversalReason::DotDotSegment) && has_dotdot(raw)
    ||| is_traversal(e, argument, raw, PathTraversalReason::SymlinkEscape) && !has_dotdot(raw)
    ||| (e matches PathError::Io { argument: a, .. } && a@ == argument + " '"@ + raw + "'"@
        && !has_dotdot(raw))
    ||| (e matches PathError::NotADirectory(p) && p@ == raw && !has_dotdot(raw) && dir)
    ||| (e matches PathError::NotAFile(p) && p@ == raw && !has_dotdot(raw) && !dir)
}

/// What a resolved argument `raw` under `argument` amounts to, given what
/// canonicalizing it returned and whether that is of the wanted kind (a
/// directory when `dir`, else a regular file).
pub open spec fn resolution_outcome(
    r: Result<PathBuf, PathError>,
    argument: Seq<char>,
    raw: Seq<char>,
    canonical: Result<PathBuf, std::io::Error>,
    right_kind: bool,
    dir: bool,
) -> bool {
    match canonical {
        Err(err) => r matches Err(e) && io_refusal(e, argument, raw, err),
        Ok(c) => if right_kind {
            r == Ok::<PathBuf, PathError>(c)
        } else if dir {
            r matches Err(PathError::NotADirectory(p)) && p@ == raw
        } else {
            r matches Err(PathError::NotAFile(p)) && p@ == raw
        },
    }
}

/// Decide a resolved argument from what the file system said of it: a
/// failure to canonicalize is mapped by [`map_io`]; a canonical path of the
/// wanted kind is kept; one of the other kind is refused.
pub fn resolution_result(
    argument: &str,
    raw: &str,
    canonical: Result<PathBuf, std::io::Error>,
    right_kind: bool,
    dir: bool,
) -> (r: Result<PathBuf, PathError>)
    ensures
        resolution_outcome(r, argument@, raw@, canonical, right_kind, dir),
{
    match canonical {
        Ok(c) => if dir {
            require_directory(raw, c, right_kind)
        } else {
            require_file(raw, c, right_kind)
        },
        Err(e) => Err(map_io(argument, raw, e)),
    }
}

/// Whether `r` is what [`resolution_result`] makes of some answer of the
/// file system, a successful canonicalization being absolute.
pub open spec fn resolved_somehow(
    r: Result<PathBuf, PathError>,
    argument: Seq<char>,
    raw: Seq<char>,
    dir: bool,
) -> bool {
    exists|canonical: Result<PathBuf, std::io::Error>, right_kind: bool|
        (canonical matches Ok(c) ==> path_is_absolute(c)) && #[trigger] resolution_outcome(
            r,
            argument,
            raw,
            canonical,
            right_kind,
            dir,
        )
}

/// Keep `canonical` when it is a directory, else refuse `raw`.
pub fn require_directory(raw: &str, canonical: PathBuf, dir: bool) -> (r: Result<PathBuf, PathError>)
    ensures
        dir ==> r == Ok::<PathBuf, PathError>(canonical),
        !dir ==> (r matches Err(PathError::NotADirectory(p)) && p@ == raw@),
{
    if !dir {
        return Err(PathError::NotADirectory(String::from_str(raw)));
    }
    Ok(canonical)
}

/// Keep `canonical` when it is a regular file, else refuse `raw`.
pub fn require_file(raw: &str, canonical: PathBuf, file: bool) -> (r: Result<PathBuf, PathError>)
    ensures
        file ==> r == Ok::<PathBuf, PathError>(canonical),
        !file ==> (r matches Err(PathError::NotAFile(p)) && p@ == raw@),
{
    if !file {
        return Err(PathError::NotAFile(String::from_str(raw)));
    }
    Ok(canonical)
}

/// Validate a directory argument under the label `argument` (`--scope`, a
/// bundle root, a document root): no `..` component, resolves, and is a
/// directory. A `..` is refused before the file system is consulted.
pub fn validate_dir_path(argument: &str, raw: &str) -> (r: Result<PathBuf, PathError>)
    ensures
        has_dotdot(raw@) ==> (r matches Err(e) && is_traversal(
            e,
            argument@,
            raw@,
            PathTraversalReason::DotDotSegment,
        )),
        r matches Err(e) ==> resolution_refusal(e, argument@, raw@, true),
        !has_dotdot(raw@) ==> resolved_somehow(r, argument@, raw@, true),
        r matches Ok(p) ==> path_is_absolute(p),
{
    reject_dotdot(argument, raw)?;
    let canonical = canonicalize(&path_buf_of(raw));
    let kind = match &canonical {
        Ok(c) => is_dir(c),
        Err(_) => false,
    };
    let ghost answer = canonical;
    let r = resolution_result(argument, raw, canonical, kind, true);
    assert(resolution_outcome(r, argument@, raw@, answer, kind, true));
    r
}

/// Validate a `--module <path>` argument: no `..` component, resolves, and is a
/// directory.
pub fn validate_module_path(raw: &str) -> (r: Result<PathBuf, PathError>)
    ensures
        has_dotdot(raw@) ==> (r matches Err(e) && is_traversal(
            e,
            "--module"@,
            raw@,
            PathTraversalReason::DotDotSegment,
        )),
        r matches Err(e) ==> resolution_refusal(e, "--module"@, raw@, true),
        !has_dotdot(raw@) ==> resolved_somehow(r, "--module"@, raw@, true),
        r matches Ok(p) ==> path_is_absolute(p),
{
    validate_dir_path("--module", raw)
}

/// Validate an input-file argument under the label `argument` (`--data`, or
/// `document` for a positional): no `..` component, resolves, and is a regular
/// file. `-` (stdin) is the caller's to handle before this guard.
pub fn validate_input_path(argument: &str, raw: &str) -> (r: Result<PathBuf, PathError>)
    ensures
        has_dotdot(raw@) ==> (r matches Err(e) && is_traversal(
            e,
            argument@,
            raw@,
            PathTraversalReason::DotDotSegment,
        )),
        r matches Err(e) ==> resolution_refusal(e, argument@, raw@, false),
        !has_dotdot(raw@) ==> resolved_somehow(r, argument@, raw@, false),
        r matches Ok(p) ==> path_is_absolute(p),
{
    reject_dotdot(argument, raw)?;
    let canonical = canonicalize(&path_buf_of(raw));
    let kind = match &canonical {
        Ok(c) => is_file(c),
        Err(_) => false,
    };
    let ghost answer = canonical;
    let r = resolution_result(argument, raw, canonical, kind, false);
    assert(resolution_outcome(r, argument@, raw@, answer, kind, false));
    r
}

/// Validate a `--data <file>` argument.
pub fn validate_data_path(raw: &str) -> (r: Result<PathBuf, PathError>)
    ensures
        has_dotdot(raw@) ==> (r matches Err(e) && is_traversal(
            e,
            "--data"@,
            raw@,
            PathTraversalReason::DotDotSegment,
        )),
        r matches Err(e) ==> resolution_refusal(e, "--data"@, raw@, false),
        !has_dotdot(raw@) ==> resolved_somehow(r, "--data"@, raw@, false),
        r matches Ok(p) ==> path_is_absolute(p),
{
    validate_input_path("--data", raw)
}

/// `Path::parent`, as text: `None` for a root or an empty path.
pub uninterp spec fn path_parent(raw: Seq<char>) -> Option<Seq<char>>;

/// `Path::file_name`, as text: the last component, `None` when the path ends
/// in `..` or is a root.
pub uninterp spec fn path_file_name(raw: Seq<char>) -> Option<Seq<char>>;

/// The optional string as characters.
pub open spec fn opt_text(o: Option<String>) -> Option<Seq<char>> {
    match o {
        Some(s) => Some(s@),
        None => None,
    }
}

/// The parent of `raw` (`Path::parent`).
#[verifier::external_body]
fn parent_of(raw: &str) -> (r: Option<String>)
    ensures
        opt_text(r) == path_parent(raw@),
{
    match Path::new(raw).parent() {
        Some(p) => Some(p.to_string_lossy().into_owned()),
        None => None,
    }
}

/// The final component of `raw` (`Path::file_name`).
#[verifier::external_body]
fn file_name_of(raw: &str) -> (r: Option<String>)
    ensures
        opt_text(r) == path_file_name(raw@),
{
    match Path::new(raw).file_name() {
        Some(n) => Some(n.to_string_lossy().into_owned()),
        None => None,
    }
}

/// A path as text (`Path::display`). The text depends on the path's bytes,
/// which nothing here can name, so nothing is stated of it.
#[verifier::external_body]
pub(crate) fn display_path(p: &PathBuf) -> (s: String) {
    p.display().to_string()
}

/// The owned path `PathBuf::from` makes of a text: a function of the text
/// alone.
pub uninterp spec fn path_buf(text: Seq<char>) -> PathBuf;

/// `raw` as an owned path (`PathBuf::from`), which is [`path_buf`] of it.
/// On Unix a path is absolute exactly when it starts with `/`, as
/// `Path::is_absolute` and `Path::has_root` document.
#[verifier::external_body]
pub(crate) fn path_buf_of(raw: &str) -> (p: PathBuf)
    ensures
        p == path_buf(raw@),
        path_is_absolute(p) <==> (raw@.len() > 0 && raw@[0] == '/'),
{
    PathBuf::from(raw)
}

/// The refusals of a `--out` path: a `..` component, a parent that cannot be
/// resolved or is not a directory, or no final component.
pub open spec fn out_refusal(e: PathError, raw: Seq<char>) -> bool {
    ||| is_traversal(e, "--out"@, raw, PathTraversalReason::DotDotSegment) && has_dotdot(raw)
    ||| (path_parent(raw) matches Some(parent) && parent.len() > 0 && parent_refusal(e, raw, parent)
        && !has_dotdot(raw))
}

/// The refusals of a `--out` path whose parent part is `parent`.
pub open spec fn parent_refusal(e: PathError, raw: Seq<char>, parent: Seq<char>) -> bool {
    ||| is_traversal(e, "--out"@, raw, PathTraversalReason::SymlinkEscape)
    ||| (e matches PathError::Io { argument: a, .. } && a@ == "--out"@ + " '"@ + raw + "'"@)
    ||| (e matches PathError::NotADirectory(p) && p@ == parent)
    ||| (e matches PathError::NotAFile(p) && p@ == raw && path_file_name(raw) is None)
}

/// `Path::join` of a path and a name: a function of the two alone.
pub uninterp spec fn path_joined(dir: PathBuf, name: Seq<char>) -> PathBuf;

/// `name` joined under `dir` (`Path::join`), which is [`path_joined`] of
/// them.
#[verifier::external_body]
fn join_path(dir: &PathBuf, name: &str) -> (p: PathBuf)
    ensures
        p == path_joined(*dir, name@),
{
    dir.join(name)
}

/// Whether `raw` has a non-empty parent directory part.
pub open spec fn has_parent_part(raw: Seq<char>) -> bool {
    path_parent(raw) matches Some(parent) && parent.len() > 0
}

/// What a `--out` path `raw` with parent part `parent` amounts to, given
/// what canonicalizing the parent returned, whether that is a directory,
/// and the path's final component.
pub open spec fn out_outcome_holds(
    r: Result<PathBuf, PathError>,
    raw: Seq<char>,
    parent: Seq<char>,
    canonical: Result<PathBuf, std::io::Error>,
    dir: bool,
    name: Option<Seq<char>>,
) -> bool {
    match canonical {
        Err(err) => r matches Err(e) && io_refusal(e, "--out"@, raw, err),
        Ok(c) => if !dir {
            r matches Err(PathError::NotADirectory(p)) && p@ == parent
        } else {
            match name {
                None => r matches Err(PathError::NotAFile(p)) && p@ == raw,
                Some(n) => r == Ok::<PathBuf, PathError>(path_joined(c, n)),
            }
        },
    }
}

/// Decide a `--out` path from what the file system said of its parent: a
/// parent that does not resolve is mapped by [`map_io`]; one that is not a
/// directory is refused by its given text; a path with no final component
/// is not a file; otherwise the file name is joined under the resolved
/// parent.
pub fn out_outcome(
    raw: &str,
    parent: String,
    canonical: Result<PathBuf, std::io::Error>,
    dir: bool,
    name: Option<String>,
) -> (r: Result<PathBuf, PathError>)
    ensures
        out_outcome_holds(r, raw@, parent@, canonical, dir, opt_text(name)),
{
    match canonical {
        Err(e) => Err(map_io("--out", raw, e)),
        Ok(c) => {
            if !dir {
                return Err(PathError::NotADirectory(parent));
            }
            match name {
                Some(n) => Ok(join_path(&c, n.as_str())),
                None => Err(PathError::NotAFile(String::from_str(raw))),
            }
        },
    }
}

/// Validate a `--out <path>` argument. The file need not exist yet: only the
/// parent directory must be real, and the path must have no `..` component.
/// A path with no parent directory part is kept as it was given; otherwise
/// the result is [`out_outcome`] of what the file system says of the parent.
pub fn validate_out_path(raw: &str) -> (r: Result<PathBuf, PathError>)
    ensures
        has_dotdot(raw@) ==> (r matches Err(e) && is_traversal(
            e,
            "--out"@,
            raw@,
            PathTraversalReason::DotDotSegment,
        )),
        r matches Err(e) ==> out_refusal(e, raw@),
        !has_dotdot(raw@) && !has_parent_part(raw@) ==> r == Ok::<PathBuf, PathError>(
            path_buf(raw@),
        ),
        !has_dotdot(raw@) && has_parent_part(raw@) ==> exists|
            canonical: Result<PathBuf, std::io::Error>,
            dir: bool,
        |
            (canonical matches Ok(c) ==> path_is_absolute(c)) && #[trigger] out_outcome_holds(
                r,
                raw@,
                path_parent(raw@).unwrap(),
                canonical,
                dir,
                path_file_name(raw@),
            ),
{
    reject_dotdot("--out", raw)?;
    match parent_of(raw) {
        Some(parent) => {
            if parent.as_str().unicode_len() > 0 {
                let canonical = canonicalize(&path_buf_of(parent.as_str()));
                let dir = match &canonical {
                    Ok(c) => is_dir(c),
                    Err(_) => false,
                };
                let name = file_name_of(raw);
                let ghost answer = canonical;
                let ghost pv = parent@;
                assert(path_parent(raw@) == Some(pv));
                let r = out_outcome(raw, parent, canonical, dir, name);
                assert(out_outcome_holds(r, raw@, pv, answer, dir, path_file_name(raw@)));
                return r;
            }
        },
        None => {},
    }
    Ok(path_buf_of(raw))
}

} // verus!
