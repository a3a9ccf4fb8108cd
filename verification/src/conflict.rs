//! Conflict-resolution types shared with the UI. A conflicted file is a list
//! of ordered segments — plain context or a conflict hunk — kept verbatim
//! (line terminators included) so that serializing them back is byte-exact.

use vstd::prelude::*;

verus! {

/// The character views of a sequence of strings.
pub open spec fn views(v: Seq<String>) -> Seq<Seq<char>> {
    v.map_values(|s: String| s@)
}

/// The character view of an optional string.
pub open spec fn opt_view(o: Option<String>) -> Option<Seq<char>> {
    match o {
        Some(s) => Some(s@),
        None => None,
    }
}

/// The character views of an optional list of strings.
pub open spec fn opt_views(o: Option<Vec<String>>) -> Option<Seq<Seq<char>>> {
    match o {
        Some(v) => Some(views(v@)),
        None => None,
    }
}

/// One conflict block in a file. `ours` is the PR branch's side, `theirs`
/// the base branch's.
#[derive(Debug, Clone, PartialEq, Eq)]
pub struct ConflictHunk {
    /// 1-based line number of the `<<<<<<<` marker.
    pub start_line: usize,
    /// 1-based line number of the `>>>>>>>` marker (inclusive).
    pub end_line: usize,
    /// The verbatim marker block, terminators included.
    pub raw: Vec<String>,
    /// Text after `<<<<<<<`.
    pub ours_label: Option<String>,
    /// The PR branch's version of the lines.
    pub ours: Vec<String>,
    /// The common-ancestor lines of a diff3-style conflict, when present.
    pub base: Option<Vec<String>>,
    /// Text after `|||||||`, when present.
    pub base_label: Option<String>,
    /// The base branch's version of the lines.
    pub theirs: Vec<String>,
    /// Text after `>>>>>>>`, when present.
    pub theirs_label: Option<String>,
}

/// Mathematical view of a [`ConflictHunk`].
pub struct HunkView {
    pub start_line: int,
    pub end_line: int,
    pub raw: Seq<Seq<char>>,
    pub ours_label: Option<Seq<char>>,
    pub ours: Seq<Seq<char>>,
    pub base: Option<Seq<Seq<char>>>,
    pub base_label: Option<Seq<char>>,
    pub theirs: Seq<Seq<char>>,
    pub theirs_label: Option<Seq<char>>,
}

impl View for ConflictHunk {
    type V = HunkView;

    open spec fn view(&self) -> HunkView {
        HunkView {
            start_line: self.start_line as int,
            end_line: self.end_line as int,
            raw: views(self.raw@),
            ours_label: opt_view(self.ours_label),
            ours: views(self.ours@),
            base: opt_views(self.base),
            base_label: opt_view(self.base_label),
            theirs: views(self.theirs@),
            theirs_label: opt_view(self.theirs_label),
        }
    }
}

/// One ordered piece of a conflicted file.
#[derive(Debug, Clone, PartialEq, Eq)]
pub enum ConflictSegment {
    /// Unconflicted lines, verbatim.
    Context { lines: Vec<String> },
    /// One `<<<<<<<` … `>>>>>>>` conflict block.
    Conflict { hunk: ConflictHunk },
}

/// Mathematical view of a [`ConflictSegment`].
pub enum SegmentView {
    Context(Seq<Seq<char>>),
    Conflict(HunkView),
}

impl View for ConflictSegment {
    type V = SegmentView;

    open spec fn view(&self) -> SegmentView {
        match self {
            ConflictSegment::Context { lines } => SegmentView::Context(views(lines@)),
            ConflictSegment::Conflict { hunk } => SegmentView::Conflict(hunk@),
        }
    }
}

/// The views of a sequence of segments.
pub open spec fn segment_views(v: Seq<ConflictSegment>) -> Seq<SegmentView> {
    v.map_values(|s: ConflictSegment| s@)
}

/// One conflicted file, as served to the editor.
#[derive(Debug, Clone, PartialEq, Eq)]
pub struct ConflictFile {
    /// Path relative to the repository root.
    pub path: String,
    /// Binary file: whole-file pick only.
    pub binary: bool,
    /// Larger than the text-editing threshold: whole-file pick only.
    pub large: bool,
    /// Ordered segments; empty when `binary` or `large`.
    pub segments: Vec<ConflictSegment>,
}

/// One row of the conflicted-file list.
#[derive(Debug, Clone, PartialEq, Eq)]
pub struct ConflictFileSummary {
    /// Path relative to the repository root.
    pub path: String,
    /// Number of conflict hunks in the file.
    pub conflicts: usize,
    /// Binary file: whole-file pick only.
    pub binary: bool,
    /// Larger than the text-editing threshold: whole-file pick only.
    pub large: bool,
}

/// A started conflict-resolution session and the files it must resolve.
#[derive(Debug, Clone, PartialEq, Eq)]
pub struct ConflictSession {
    /// Opaque session id.
    pub session_id: String,
    /// `"owner/name"`.
    pub repo: String,
    /// PR number.
    pub number: u64,
    /// Base branch being merged in.
    pub base: String,
    /// Head branch being merged into.
    pub head: String,
    /// Absolute path of the temporary worktree.
    pub worktree_path: String,
    /// Conflicted files with their conflict counts.
    pub files: Vec<ConflictFileSummary>,
}

} // verus!
