//! Where a repository lives on disk, below the configured scan path.

use vstd::prelude::*;
use crate::text::{concat2, concat3, has_char, has_double_dot, str_has_char, str_has_double_dot};

verus! {

/// The path `segment` appended to `base` the way `PathBuf::push` does on Unix:
/// an absolute segment replaces the base, and a separator is inserted unless
/// the base is empty or already ends with one.
pub open spec fn path_join(base: Seq<char>, segment: Seq<char>) -> Seq<char> {
    if segment.len() > 0 && segment[0] == '/' {
        segment
    } else if base.len() == 0 || base.last() == '/' {
        base + segment
    } else {
        base + seq!['/'] + segment
    }
}

/// Appends `segment` to the path `base` (see `path_join`).
pub fn join_path(base: &str, segment: &str) -> (r: String)
    ensures
        r@ == path_join(base@, segment@),
{
    let n = base.unicode_len();
    if segment.unicode_len() > 0 && segment.get_char(0) == '/' {
        return segment.to_owned();
    }
    if n == 0 || base.get_char(n - 1) == '/' {
        concat2(base, segment)
    } else {
        proof {
            reveal_strlit("/");
        }
        concat3(base, "/", segment)
    }
}

/// Which of the two path segments a check is about.
#[derive(Clone, Copy, Debug, PartialEq, Eq, Structural)]
pub enum SegmentField {
    Owner,
    Repo,
}

impl SegmentField {
    /// The name of the field as it appears in error messages.
    pub open spec fn spec_label(self) -> Seq<char> {
        match self {
            SegmentField::Owner => seq!['o', 'w', 'n', 'e', 'r'],
            SegmentField::Repo => seq!['r', 'e', 'p', 'o'],
        }
    }

    /// The name of the field as it appears in error messages.
    pub fn label(&self) -> (r: &'static str)
        ensures
            r@ == self.spec_label(),
    {
        match self {
            SegmentField::Owner => {
                proof {
                    reveal_strlit("owner");
                }
                "owner"
            },
            SegmentField::Repo => {
                proof {
                    reveal_strlit("repo");
                }
                "repo"
            },
        }
    }
}

/// Why a path segment was refused.
#[derive(Clone, Copy, Debug, PartialEq, Eq, Structural)]
pub enum PathError {
    /// The segment is the empty string.
    Empty(SegmentField),
    /// The segment holds `..`, `/` or `\`.
    Traversal(SegmentField),
}

/// A segment may name a directory below the scan path: it is not empty and
/// holds neither `..`, `/` nor `\`.
pub open spec fn segment_ok(s: Seq<char>) -> bool {
    s.len() > 0 && !has_double_dot(s) && !has_char(s, '/') && !has_char(s, '\\')
}

/// The error that `validate_segment` reports for `s`, if any.
pub open spec fn segment_error(s: Seq<char>, field: SegmentField) -> Option<PathError> {
    if s.len() == 0 {
        Some(PathError::Empty(field))
    } else if has_double_dot(s) || has_char(s, '/') || has_char(s, '\\') {
        Some(PathError::Traversal(field))
    } else {
        None
    }
}

/// What `repo_path` gives for a scan path, an owner and a repository name.
pub open spec fn spec_repo_path(scan: Seq<char>, owner: Seq<char>, repo: Seq<char>) -> Result<
    Seq<char>,
    PathError,
> {
    match segment_error(owner, SegmentField::Owner) {
        Some(e) => Err(e),
        None => match segment_error(repo, SegmentField::Repo) {
            Some(e) => Err(e),
            None => Ok(path_join(path_join(scan, owner), repo)),
        },
    }
}

impl PathError {
    /// The human-readable text of the error.
    pub open spec fn spec_message(self) -> Seq<char> {
        match self {
            PathError::Empty(f) => f.spec_label() + " cannot be empty"@,
            PathError::Traversal(f) => f.spec_label() + " contains path traversal characters"@,
        }
    }

    /// The human-readable text of the error, such as
    /// `repo contains path traversal characters`.
    pub fn message(&self) -> (r: String)
        ensures
            r@ == self.spec_message(),
    {
        match self {
            PathError::Empty(f) => concat2(f.label(), " cannot be empty"),
            PathError::Traversal(f) => concat2(f.label(), " contains path traversal characters"),
        }
    }
}

/// Checks that `value` may be used as the path segment `field`.
pub fn validate_segment(value: &str, field: SegmentField) -> (r: Result<(), PathError>)
    ensures
        r is Ok <==> segment_ok(value@),
        r is Err ==> segment_error(value@, field) == Some(r->Err_0),
        r is Ok ==> segment_error(value@, field) is None,
{
    if value.unicode_len() == 0 {
        return Err(PathError::Empty(field));
    }
    if str_has_double_dot(value) || str_has_char(value, '/') || str_has_char(value, '\\') {
        return Err(PathError::Traversal(field));
    }
    Ok(())
}

/// The directory of repository `repo` of `owner` below `scan_path`, or the
/// reason why either name cannot be used as a path segment.
pub fn repo_path(scan_path: &str, owner: &str, repo: &str) -> (r: Result<String, PathError>)
    ensures
        match r {
            Ok(p) => spec_repo_path(scan_path@, owner@, repo@) == Ok::<Seq<char>, PathError>(p@),
            Err(e) => spec_repo_path(scan_path@, owner@, repo@) == Err::<Seq<char>, PathError>(e),
        },
        r is Ok <==> segment_ok(owner@) && segment_ok(repo@),
{
    validate_segment(owner, SegmentField::Owner)?;
    validate_segment(repo, SegmentField::Repo)?;
    let base = join_path(scan_path, owner);
    Ok(join_path(base.as_str(), repo))
}

} // verus!
