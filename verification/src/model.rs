use vstd::prelude::*;
use std::ops::Range;
use crate::io::Content;

verus! {

/// How the two sides relate over a block of the diff.
#[derive(Debug, Clone, Copy, PartialEq, Eq, Structural)]
pub enum BlockKind {
    Equal,
    Insert,
    Delete,
    Replace,
}

/// Whether a piece of an inline (within-line) diff is unchanged or changed.
#[derive(Debug, Clone, Copy, PartialEq, Eq, Structural)]
pub enum InlineKind {
    Equal,
    Changed,
}

/// A run of characters of one side of a replaced line.
pub struct InlineSegment {
    pub text: String,
    pub kind: InlineKind,
}

/// The character-level diff of one replaced line pair.
pub struct InlineDiff {
    pub left_segments: Vec<InlineSegment>,
    pub right_segments: Vec<InlineSegment>,
}

/// One block of the line diff: the line ranges it covers on each side, and
/// for replaced lines the inline diff of each line pair, in order.
pub struct DiffBlock {
    pub left_range: Range<usize>,
    pub right_range: Range<usize>,
    pub inline_diffs: Vec<InlineDiff>,
}

/// The blocks of a line diff, in order.
pub struct DiffResult {
    pub blocks: Vec<DiffBlock>,
}

/// One row of the aligned two-pane display: the line shown on each side (or
/// padding), the kind of the block it belongs to, and that block's index.
#[derive(Debug, Clone, Copy, PartialEq, Eq, Structural)]
pub struct DisplayRow {
    pub left_line: Option<usize>,
    pub right_line: Option<usize>,
    pub kind: BlockKind,
    pub block_index: usize,
}

/// The diff state the key handling and the view read: both contents and
/// their unsaved-change flags, the diff, its display rows, and which change
/// block is current.
pub struct DiffModel {
    pub left_content: Content,
    pub right_content: Content,
    pub left_dirty: bool,
    pub right_dirty: bool,
    pub diff: DiffResult,
    pub display_rows: Vec<DisplayRow>,
    /// Indices into `diff.blocks` of the blocks that are not equal, in order.
    pub change_block_indices: Vec<usize>,
    /// Position in `change_block_indices` of the current change block.
    pub current_block: usize,
    pub change_count: usize,
    /// Width in columns of the widest rendered line, leading space included.
    pub max_content_width: usize,
    pub tab_width: usize,
}

impl DiffModel {
    /// The current block is a valid position whenever there are change blocks.
    pub open spec fn wf(&self) -> bool {
        self.change_block_indices.len() == 0 || self.current_block < self.change_block_indices.len()
    }
}

} // verus!
