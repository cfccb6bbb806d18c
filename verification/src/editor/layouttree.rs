//! The tiling of the editor area: a binary tree whose leaves are panes and
//! whose inner nodes split their area in two, side by side or one above the
//! other.
//!
//! A split's ratio is a floating-point share, held here as the bit pattern of
//! an `f32`. The two computations that need its value (the extent of the
//! first part, and the ratio that a dragged divider leaves) are handed in as
//! functions by the caller; everything else is computed here.
use crate::prelude::{Position, Rect, Size};
use vstd::prelude::*;

verus! {

/// A pane is split only when it is at least twice this size along the split.
pub const MIN_PANE_SIZE: usize = 4;

/// How many cells on either side of a divider a click still grabs it.
pub const SPLIT_TOLERANCE: usize = 2;

/// How a split divides its area: `Vertical` puts the parts side by side,
/// `Horizontal` one above the other.
#[derive(Clone, Copy, Debug, PartialEq, Eq, Structural)]
pub enum SplitDirection {
    Horizontal,
    Vertical,
}

/// A split found under the mouse.
#[derive(Clone, Copy, Debug, PartialEq, Eq, Structural)]
pub struct SplitHandle {
    pub id: usize,
    pub direction: SplitDirection,
    pub rect: Rect,
}

/// Why a change to the layout was refused.
#[derive(Clone, Copy, Debug, PartialEq, Eq, Structural)]
pub enum LayoutError {
    /// The pane is smaller than twice [`MIN_PANE_SIZE`] along the split.
    PaneTooSmall,
    /// No leaf holds the pane.
    PaneNotFound,
    /// The pane is the only one left.
    LastPane,
    /// The pane's leaf was removed (reported to the split above it).
    Deleted,
}

/// A node of the layout tree.
pub enum LayoutNode {
    Split {
        split_id: usize,
        direction: SplitDirection,
        /// The share of the first part, as the bits of an `f32`.
        ratio: u32,
        first: Box<LayoutNode>,
        second: Box<LayoutNode>,
        rect: Rect,
    },
    Leaf { pane_id: usize, rect: Rect },
}

impl LayoutNode {
    /// The area of the node.
    pub open spec fn node_rect(self) -> Rect {
        match self {
            LayoutNode::Split { rect, .. } => rect,
            LayoutNode::Leaf { rect, .. } => rect,
        }
    }
}

/// The size of `rect` along a split in `direction`.
pub open spec fn extent(rect: Rect, direction: SplitDirection) -> int {
    match direction {
        SplitDirection::Vertical => rect.size.width as int,
        SplitDirection::Horizontal => rect.size.height as int,
    }
}

/// The cells of `rect` are numbered without overflow.
pub open spec fn rect_fits(rect: Rect) -> bool {
    rect.position.row + rect.size.height <= usize::MAX && rect.position.col + rect.size.width
        <= usize::MAX
}

/// The part of `rect` before a divider `fe` cells in.
pub open spec fn first_part(rect: Rect, direction: SplitDirection, fe: int) -> Rect {
    match direction {
        SplitDirection::Vertical => Rect {
            position: rect.position,
            size: Size { height: rect.size.height, width: fe as usize },
        },
        SplitDirection::Horizontal => Rect {
            position: rect.position,
            size: Size { height: fe as usize, width: rect.size.width },
        },
    }
}

/// The part of `rect` after a divider `fe` cells in.
pub open spec fn second_part(rect: Rect, direction: SplitDirection, fe: int) -> Rect {
    match direction {
        SplitDirection::Vertical => Rect {
            position: Position { row: rect.position.row, col: (rect.position.col + fe) as usize },
            size: Size { height: rect.size.height, width: (rect.size.width - fe) as usize },
        },
        SplitDirection::Horizontal => Rect {
            position: Position { row: (rect.position.row + fe) as usize, col: rect.position.col },
            size: Size { height: (rect.size.height - fe) as usize, width: rect.size.width },
        },
    }
}

/// The extent of the first part of a split of `total` cells whose ratio
/// scales `total` to `scaled`: kept within `1..=total - 1`; a split of fewer
/// than two cells gives all of them to the first part.
pub open spec fn clamp_first(total: int, scaled: int) -> int {
    if total >= 2 {
        if scaled < 1 {
            1
        } else if scaled > total - 1 {
            total - 1
        } else {
            scaled
        }
    } else {
        total
    }
}

/// `share` gives at most one result for each pair of arguments.
pub open spec fn single_valued_share<F: Fn(usize, u32) -> usize>(share: F) -> bool {
    forall|e: usize, r: u32, x: usize, y: usize|
        #[trigger] share.ensures((e, r), x) && #[trigger] share.ensures((e, r), y) ==> x == y
}

/// `share` accepts every pair of arguments.
pub open spec fn total_share<F: Fn(usize, u32) -> usize>(share: F) -> bool {
    forall|e: usize, r: u32| #[trigger] share.requires((e, r))
}

/// `ratio_at` accepts every pair of arguments.
pub open spec fn total_ratio<G: Fn(usize, usize) -> u32>(ratio_at: G) -> bool {
    forall|a: usize, b: usize| #[trigger] ratio_at.requires((a, b))
}

/// The extent that `share` gives the first part of a split of `total` cells
/// with the given ratio.
pub open spec fn share_of<F: Fn(usize, u32) -> usize>(share: F, total: int, ratio: u32) -> usize {
    choose|s: usize| #[trigger] share.ensures((total as usize, ratio), s)
}

/// The extent of the first part of a split of `total` cells.
pub open spec fn first_extent<F: Fn(usize, u32) -> usize>(share: F, total: int, ratio: u32) -> int {
    clamp_first(total, share_of(share, total, ratio) as int)
}

/// The ratio, as `f32` bits, that `ratio_at` gives a divider `local` cells
/// into a split of `total` cells.
pub open spec fn ratio_of<G: Fn(usize, usize) -> u32>(ratio_at: G, local: int, total: int) -> u32 {
    choose|r: u32| #[trigger] ratio_at.ensures((local as usize, total as usize), r)
}

/// `ratio_at` gives at most one result for each pair of arguments.
pub open spec fn single_valued_ratio<G: Fn(usize, usize) -> u32>(ratio_at: G) -> bool {
    forall|a: usize, b: usize, x: u32, y: u32|
        #[trigger] ratio_at.ensures((a, b), x) && #[trigger] ratio_at.ensures((a, b), y) ==> x == y
}

/// The node laid out in `rect`: each split gives its first part the extent
/// that the ratio asks for (see [`first_extent`]) and the rest to the second.
pub open spec fn laid_out<F: Fn(usize, u32) -> usize>(node: LayoutNode, rect: Rect, share: F) -> LayoutNode
    decreases node,
{
    match node {
        LayoutNode::Leaf { pane_id, .. } => LayoutNode::Leaf { pane_id, rect },
        LayoutNode::Split { split_id, direction, ratio, first, second, .. } => {
            let fe = first_extent(share, extent(rect, direction), ratio);
            LayoutNode::Split {
                split_id,
                direction,
                ratio,
                first: Box::new(laid_out(*first, first_part(rect, direction, fe), share)),
                second: Box::new(laid_out(*second, second_part(rect, direction, fe), share)),
                rect,
            }
        },
    }
}

/// The panes of the leaves, left to right.
pub open spec fn leaf_ids(node: LayoutNode) -> Seq<usize>
    decreases node,
{
    match node {
        LayoutNode::Leaf { pane_id, .. } => seq![pane_id],
        LayoutNode::Split { first, second, .. } => leaf_ids(*first) + leaf_ids(*second),
    }
}

/// The panes of the leaves with their areas, left to right.
pub open spec fn leaf_layouts(node: LayoutNode) -> Seq<(usize, Rect)>
    decreases node,
{
    match node {
        LayoutNode::Leaf { pane_id, rect } => seq![(pane_id, rect)],
        LayoutNode::Split { first, second, .. } => leaf_layouts(*first) + leaf_layouts(*second),
    }
}

/// Every area in the tree is numbered without overflow.
pub open spec fn rects_fit(node: LayoutNode) -> bool
    decreases node,
{
    match node {
        LayoutNode::Leaf { rect, .. } => rect_fits(rect),
        LayoutNode::Split { first, second, rect, .. } => rect_fits(rect) && rects_fit(*first)
            && rects_fit(*second),
    }
}

/// Every split divides its area exactly in two, side by side or one above
/// the other, giving each part at least one cell when there are two.
pub open spec fn tiles(node: LayoutNode) -> bool
    decreases node,
{
    match node {
        LayoutNode::Leaf { .. } => true,
        LayoutNode::Split { direction, first, second, rect, .. } => {
            let total = extent(rect, direction);
            let fe = extent(first.node_rect(), direction);
            &&& (if total >= 2 {
                1 <= fe <= total - 1
            } else {
                fe == total
            })
            &&& first.node_rect() == first_part(rect, direction, fe)
            &&& second.node_rect() == second_part(rect, direction, fe)
            &&& tiles(*first)
            &&& tiles(*second)
        },
    }
}

/// The tree after splitting the first leaf of `target` that can be split:
/// the leaf becomes a split whose first part keeps the pane and whose second
/// part holds `new_pane_id`, both with the leaf's area. The first subtree is
/// tried before the second; the error is that of the last subtree tried.
pub open spec fn split_at_leaf(
    node: LayoutNode,
    target: usize,
    new_pane_id: usize,
    direction: SplitDirection,
    ratio: u32,
    split_id: usize,
) -> Result<LayoutNode, LayoutError>
    decreases node,
{
    match node {
        LayoutNode::Leaf { pane_id, rect } => if pane_id == target {
            if extent(rect, direction) < 2 * MIN_PANE_SIZE {
                Err(LayoutError::PaneTooSmall)
            } else {
                Ok(
                    LayoutNode::Split {
                        split_id,
                        direction,
                        ratio,
                        first: Box::new(LayoutNode::Leaf { pane_id, rect }),
                        second: Box::new(LayoutNode::Leaf { pane_id: new_pane_id, rect }),
                        rect,
                    },
                )
            }
        } else {
            Err(LayoutError::PaneNotFound)
        },
        LayoutNode::Split { split_id: sid, direction: d, ratio: r, first, second, rect } => {
            match split_at_leaf(*first, target, new_pane_id, direction, ratio, split_id) {
                Ok(f) => Ok(
                    LayoutNode::Split {
                        split_id: sid,
                        direction: d,
                        ratio: r,
                        first: Box::new(f),
                        second,
                        rect,
                    },
                ),
                Err(_) => match split_at_leaf(
                    *second,
                    target,
                    new_pane_id,
                    direction,
                    ratio,
                    split_id,
                ) {
                    Ok(s) => Ok(
                        LayoutNode::Split {
                            split_id: sid,
                            direction: d,
                            ratio: r,
                            first,
                            second: Box::new(s),
                            rect,
                        },
                    ),
                    Err(e) => Err(e),
                },
            }
        },
    }
}

/// The tree without the leaves of `target`: a split that loses its first
/// part is replaced by its second part as it stands, and one that loses its
/// second part by its (reduced) first part. `None` when the node itself is
/// such a leaf.
pub open spec fn removed(node: LayoutNode, target: usize) -> Option<LayoutNode>
    decreases node,
{
    match node {
        LayoutNode::Leaf { pane_id, rect } => if pane_id == target {
            None
        } else {
            Some(LayoutNode::Leaf { pane_id, rect })
        },
        LayoutNode::Split { split_id, direction, ratio, first, second, rect } => match removed(
            *first,
            target,
        ) {
            None => Some(*second),
            Some(f) => match removed(*second, target) {
                None => Some(f),
                Some(s) => Some(
                    LayoutNode::Split {
                        split_id,
                        direction,
                        ratio,
                        first: Box::new(f),
                        second: Box::new(s),
                        rect,
                    },
                ),
            },
        },
    }
}

/// Whether `mouse` is within [`SPLIT_TOLERANCE`] cells of the divider of a
/// split of `rect` whose first part is `fe` cells, and alongside it.
pub open spec fn on_divider(rect: Rect, direction: SplitDirection, fe: int, mouse: Position) -> bool {
    match direction {
        SplitDirection::Vertical => {
            let divider = rect.position.col + fe;
            &&& rect.position.row <= mouse.row < rect.position.row + rect.size.height
            &&& divider - SPLIT_TOLERANCE <= mouse.col
            &&& mouse.col <= divider + SPLIT_TOLERANCE
        },
        SplitDirection::Horizontal => {
            let divider = rect.position.row + fe;
            &&& rect.position.col <= mouse.col < rect.position.col + rect.size.width
            &&& divider - SPLIT_TOLERANCE <= mouse.row
            &&& mouse.row <= divider + SPLIT_TOLERANCE
        },
    }
}

/// The first split, in pre-order, whose divider is under `mouse`.
pub open spec fn split_under<F: Fn(usize, u32) -> usize>(
    node: LayoutNode,
    mouse: Position,
    share: F,
) -> Option<SplitHandle>
    decreases node,
{
    match node {
        LayoutNode::Leaf { .. } => None,
        LayoutNode::Split { split_id, direction, ratio, first, second, rect } => {
            let fe = first_extent(share, extent(rect, direction), ratio);
            if on_divider(rect, direction, fe, mouse) {
                Some(SplitHandle { id: split_id, direction, rect })
            } else {
                match split_under(*first, mouse, share) {
                    Some(h) => Some(h),
                    None => split_under(*second, mouse, share),
                }
            }
        },
    }
}

/// Every split that the search for a divider under `mouse` looks at spans at
/// least two cells (a narrower one has no divider to measure).
pub open spec fn searchable<F: Fn(usize, u32) -> usize>(
    node: LayoutNode,
    mouse: Position,
    share: F,
) -> bool
    decreases node,
{
    match node {
        LayoutNode::Leaf { .. } => true,
        LayoutNode::Split { direction, ratio, first, second, rect, .. } => {
            let fe = first_extent(share, extent(rect, direction), ratio);
            extent(rect, direction) >= 2 && (on_divider(rect, direction, fe, mouse) || (
            searchable(*first, mouse, share) && (split_under(*first, mouse, share) is Some
                || searchable(*second, mouse, share))))
        },
    }
}

/// The tree after dragging the divider of split `id` to `mouse`: the split
/// takes the ratio that `ratio_at` gives the mouse's offset into its area;
/// splits inside it are untouched.
pub open spec fn resized<G: Fn(usize, usize) -> u32>(
    node: LayoutNode,
    id: usize,
    mouse: Position,
    ratio_at: G,
) -> LayoutNode
    decreases node,
{
    match node {
        LayoutNode::Leaf { .. } => node,
        LayoutNode::Split { split_id, direction, ratio, first, second, rect } => if split_id == id {
            let local = match direction {
                SplitDirection::Vertical => if mouse.col >= rect.position.col {
                    mouse.col - rect.position.col
                } else {
                    0
                },
                SplitDirection::Horizontal => if mouse.row >= rect.position.row {
                    mouse.row - rect.position.row
                } else {
                    0
                },
            };
            LayoutNode::Split {
                split_id,
                direction,
                ratio: ratio_of(ratio_at, local, extent(rect, direction)),
                first,
                second,
                rect,
            }
        } else {
            LayoutNode::Split {
                split_id,
                direction,
                ratio,
                first: Box::new(resized(*first, id, mouse, ratio_at)),
                second: Box::new(resized(*second, id, mouse, ratio_at)),
                rect,
            }
        },
    }
}

/// The split tree of the editor area.
pub struct LayoutTree {
    root: LayoutNode,
    next_split_id: usize,
}

impl Default for LayoutTree {
    fn default() -> (t: Self)
        ensures
            t.root_node() == (LayoutNode::Leaf { pane_id: 0, rect: Rect::default_spec() }),
            t.next_id() == 1,
    {
        LayoutTree::new(0, Rect::default())
    }
}

impl LayoutTree {
    /// The root of the tree.
    pub closed spec fn root_node(&self) -> LayoutNode {
        self.root
    }

    /// The id the next split will get.
    pub closed spec fn next_id(&self) -> usize {
        self.next_split_id
    }

    /// A tree of one pane filling `rect`.
    pub fn new(initial_pane_id: usize, rect: Rect) -> (t: Self)
        ensures
            t.root_node() == (LayoutNode::Leaf { pane_id: initial_pane_id, rect }),
            t.next_id() == 1,
    {
        LayoutTree { root: LayoutNode::Leaf { pane_id: initial_pane_id, rect }, next_split_id: 1 }
    }

    /// Lays the tree out in `rect` (see [`laid_out`]); `share` scales an
    /// extent by a ratio.
    pub fn compute_layout<F: Fn(usize, u32) -> usize>(&mut self, rect: Rect, share: &F)
        requires
            total_share(*share),
            single_valued_share(*share),
            rect_fits(rect),
        ensures
            final(self).root_node() == laid_out(old(self).root_node(), rect, *share),
            final(self).next_id() == old(self).next_id(),
    {
        let mut root = LayoutNode::Leaf { pane_id: 0, rect: Rect::default() };
        std::mem::swap(&mut root, &mut self.root);
        self.root = Self::compute_node_layout(root, rect, share);
    }

    fn compute_node_layout<F: Fn(usize, u32) -> usize>(node: LayoutNode, rect: Rect, share: &F) -> (r:
        LayoutNode)
        requires
            total_share(*share),
            single_valued_share(*share),
            rect_fits(rect),
        ensures
            r == laid_out(node, rect, *share),
        decreases node,
    {
        match node {
            LayoutNode::Leaf { pane_id, .. } => LayoutNode::Leaf { pane_id, rect },
            LayoutNode::Split { split_id, direction, ratio, first, second, .. } => {
                let total = match direction {
                    SplitDirection::Vertical => rect.size.width,
                    SplitDirection::Horizontal => rect.size.height,
                };
                let fe = if total.saturating_sub(1) >= 1 {
                    let scaled = share(total, ratio);
                    assert(share.ensures((total, ratio), scaled));
                    if scaled < 1 {
                        1
                    } else if scaled > total - 1 {
                        total - 1
                    } else {
                        scaled
                    }
                } else {
                    total
                };
                assert(fe == first_extent(*share, extent(rect, direction), ratio));
                let first_rect = match direction {
                    SplitDirection::Vertical => Rect {
                        position: rect.position,
                        size: Size { height: rect.size.height, width: fe },
                    },
                    SplitDirection::Horizontal => Rect {
                        position: rect.position,
                        size: Size { height: fe, width: rect.size.width },
                    },
                };
                let second_rect = match direction {
                    SplitDirection::Vertical => Rect {
                        position: Position {
                            row: rect.position.row,
                            col: rect.position.col + fe,
                        },
                        size: Size { height: rect.size.height, width: rect.size.width - fe },
                    },
                    SplitDirection::Horizontal => Rect {
                        position: Position {
                            row: rect.position.row + fe,
                            col: rect.position.col,
                        },
                        size: Size { height: rect.size.height - fe, width: rect.size.width },
                    },
                };
                let f = Self::compute_node_layout(*first, first_rect, share);
                let s = Self::compute_node_layout(*second, second_rect, share);
                LayoutNode::Split {
                    split_id,
                    direction,
                    ratio,
                    first: Box::new(f),
                    second: Box::new(s),
                    rect,
                }
            },
        }
    }

    /// Whether another split can get an id.
    pub fn can_split(&self) -> (b: bool)
        ensures
            b == (self.next_id() < usize::MAX),
    {
        self.next_split_id < usize::MAX
    }

    /// Splits the pane `target_pane_id` to make room for `new_pane_id` (see
    /// [`split_at_leaf`]); the split gets the next split id, which is used up
    /// whether or not the split succeeds.
    pub fn split_pane(
        &mut self,
        target_pane_id: usize,
        new_pane_id: usize,
        direction: SplitDirection,
        ratio: u32,
    ) -> (r: Result<(), LayoutError>)
        requires
            old(self).next_id() < usize::MAX,
        ensures
            final(self).next_id() == old(self).next_id() + 1,
            match split_at_leaf(
                old(self).root_node(),
                target_pane_id,
                new_pane_id,
                direction,
                ratio,
                old(self).next_id(),
            ) {
                Ok(n) => r is Ok && final(self).root_node() == n,
                Err(e) => r == Err::<(), LayoutError>(e) && final(self).root_node() == old(self).root_node(),
            },
    {
        let split_id = self.next_split_id;
        self.next_split_id = self.next_split_id + 1;
        let mut root = LayoutNode::Leaf { pane_id: 0, rect: Rect::default() };
        std::mem::swap(&mut root, &mut self.root);
        let (new_root, result) = Self::split_node(
            root,
            target_pane_id,
            new_pane_id,
            direction,
            ratio,
            split_id,
        );
        self.root = new_root;
        result
    }

    fn split_node(
        node: LayoutNode,
        target_pane_id: usize,
        new_pane_id: usize,
        direction: SplitDirection,
        ratio: u32,
        split_id: usize,
    ) -> (r: (LayoutNode, Result<(), LayoutError>))
        ensures
            match split_at_leaf(node, target_pane_id, new_pane_id, direction, ratio, split_id) {
                Ok(n) => r.0 == n && r.1 is Ok,
                Err(e) => r.0 == node && r.1 == Err::<(), LayoutError>(e),
            },
        decreases node,
    {
        match node {
            LayoutNode::Leaf { pane_id, rect } => {
                if pane_id == target_pane_id {
                    let min_needed = 2 * MIN_PANE_SIZE;
                    let current_size = match direction {
                        SplitDirection::Vertical => rect.size.width,
                        SplitDirection::Horizontal => rect.size.height,
                    };
                    if current_size < min_needed {
                        return (LayoutNode::Leaf { pane_id, rect }, Err(LayoutError::PaneTooSmall));
                    }
                    (
                        LayoutNode::Split {
                            split_id,
                            direction,
                            ratio,
                            first: Box::new(LayoutNode::Leaf { pane_id, rect }),
                            second: Box::new(LayoutNode::Leaf { pane_id: new_pane_id, rect }),
                            rect,
                        },
                        Ok(()),
                    )
                } else {
                    (LayoutNode::Leaf { pane_id, rect }, Err(LayoutError::PaneNotFound))
                }
            },
            LayoutNode::Split { split_id: sid, direction: d, ratio: r, first, second, rect } => {
                let (f, res) = Self::split_node(
                    *first,
                    target_pane_id,
                    new_pane_id,
                    direction,
                    ratio,
                    split_id,
                );
                if res.is_ok() {
                    return (
                        LayoutNode::Split {
                            split_id: sid,
                            direction: d,
                            ratio: r,
                            first: Box::new(f),
                            second,
                            rect,
                        },
                        Ok(()),
                    );
                }
                let (s, res2) = Self::split_node(
                    *second,
                    target_pane_id,
                    new_pane_id,
                    direction,
                    ratio,
                    split_id,
                );
                (
                    LayoutNode::Split {
                        split_id: sid,
                        direction: d,
                        ratio: r,
                        first: Box::new(f),
                        second: Box::new(s),
                        rect,
                    },
                    res2,
                )
            },
        }
    }

    /// Removes the pane `id` from the tree (see [`removed`]); the last pane
    /// is never removed.
    pub fn remove_node(&mut self, id: usize) -> (r: Result<(), LayoutError>)
        ensures
            final(self).next_id() == old(self).next_id(),
            if old(self).root_node() matches LayoutNode::Leaf { pane_id, .. } && pane_id == id {
                r == Err::<(), LayoutError>(LayoutError::LastPane) && final(self).root_node() == old(self).root_node()
            } else {
                r is Ok && removed(old(self).root_node(), id) == Some(final(self).root_node())
            },
    {
        if let LayoutNode::Leaf { pane_id, .. } = &self.root {
            if *pane_id == id {
                return Err(LayoutError::LastPane);
            }
        }
        let mut old_root = LayoutNode::Leaf { pane_id: 0, rect: Rect::default() };
        std::mem::swap(&mut old_root, &mut self.root);
        match self.remove_node_recursive(old_root, id) {
            Ok(new_root) => {
                self.root = new_root;
                Ok(())
            },
            Err(e) => Err(e),
        }
    }

    fn remove_node_recursive(&self, node: LayoutNode, target_id: usize) -> (r: Result<
        LayoutNode,
        LayoutError,
    >)
        ensures
            match removed(node, target_id) {
                Some(n) => r == Ok::<LayoutNode, LayoutError>(n),
                None => r == Err::<LayoutNode, LayoutError>(LayoutError::Deleted),
            },
        decreases node,
    {
        match node {
            LayoutNode::Leaf { pane_id, rect } => {
                if pane_id == target_id {
                    return Err(LayoutError::Deleted);
                }
                Ok(LayoutNode::Leaf { pane_id, rect })
            },
            LayoutNode::Split { split_id, direction, ratio, first, second, rect } => {
                match self.remove_node_recursive(*first, target_id) {
                    Err(LayoutError::Deleted) => Ok(*second),
                    Ok(new_first) => match self.remove_node_recursive(*second, target_id) {
                        Err(LayoutError::Deleted) => Ok(new_first),
                        Ok(new_second) => Ok(
                            LayoutNode::Split {
                                split_id,
                                direction,
                                ratio,
                                first: Box::new(new_first),
                                second: Box::new(new_second),
                                rect,
                            },
                        ),
                        Err(e) => Err(e),
                    },
                    Err(e) => Err(e),
                }
            },
        }
    }

    /// The split whose divider is under `mouse` (see [`split_under`]).
    pub fn find_split<F: Fn(usize, u32) -> usize>(&self, mouse: Position, share: &F) -> (r: Option<
        SplitHandle,
    >)
        requires
            total_share(*share),
            single_valued_share(*share),
            rects_fit(self.root_node()),
            searchable(self.root_node(), mouse, *share),
        ensures
            r == split_under(self.root_node(), mouse, *share),
    {
        Self::find_split_at(&self.root, mouse, share)
    }

    /// The split under `node` whose divider is under `mouse` (see [`split_under`]).
    pub fn find_split_at<F: Fn(usize, u32) -> usize>(
        node: &LayoutNode,
        mouse: Position,
        share: &F,
    ) -> (r: Option<SplitHandle>)
        requires
            total_share(*share),
            single_valued_share(*share),
            rects_fit(*node),
            searchable(*node, mouse, *share),
        ensures
            r == split_under(*node, mouse, *share),
        decreases node,
    {
        match node {
            LayoutNode::Leaf { .. } => None,
            LayoutNode::Split { split_id, direction, ratio, first, second, rect } => {
                let total = match direction {
                    SplitDirection::Vertical => rect.size.width,
                    SplitDirection::Horizontal => rect.size.height,
                };
                let scaled = share(total, *ratio);
                assert(share.ensures((total, *ratio), scaled));
                let max = total - 1;
                let fe = if scaled < 1 {
                    1
                } else if scaled > max {
                    max
                } else {
                    scaled
                };
                assert(fe == first_extent(*share, extent(*rect, *direction), *ratio));
                let hit = match direction {
                    SplitDirection::Vertical => {
                        let divider_col = rect.position.col + fe;
                        let inside_vertical_span = mouse.row >= rect.position.row && mouse.row
                            < rect.position.row + rect.size.height;
                        let mouse_over_divider = mouse.col >= divider_col.saturating_sub(
                            SPLIT_TOLERANCE,
                        ) && mouse.col <= divider_col.saturating_add(SPLIT_TOLERANCE);
                        mouse_over_divider && inside_vertical_span
                    },
                    SplitDirection::Horizontal => {
                        let divider_row = rect.position.row + fe;
                        let inside_horizontal_span = mouse.col >= rect.position.col && mouse.col
                            < rect.position.col + rect.size.width;
                        let mouse_over_divider = mouse.row >= divider_row.saturating_sub(
                            SPLIT_TOLERANCE,
                        ) && mouse.row <= divider_row.saturating_add(SPLIT_TOLERANCE);
                        mouse_over_divider && inside_horizontal_span
                    },
                };
                if hit {
                    return Some(SplitHandle { id: *split_id, direction: *direction, rect: *rect });
                }
                match Self::find_split_at(first, mouse, share) {
                    Some(h) => Some(h),
                    None => Self::find_split_at(second, mouse, share),
                }
            },
        }
    }

    /// Whether every split that a search for a divider under `mouse` looks at
    /// spans at least two cells (see [`searchable`]).
    pub fn can_find_split<F: Fn(usize, u32) -> usize>(&self, mouse: Position, share: &F) -> (r:
        bool)
        requires
            total_share(*share),
            single_valued_share(*share),
            rects_fit(self.root_node()),
        ensures
            r == searchable(self.root_node(), mouse, *share),
    {
        Self::searchable_at(&self.root, mouse, share)
    }

    fn searchable_at<F: Fn(usize, u32) -> usize>(node: &LayoutNode, mouse: Position, share: &F) -> (r:
        bool)
        requires
            total_share(*share),
            single_valued_share(*share),
            rects_fit(*node),
        ensures
            r == searchable(*node, mouse, *share),
        decreases node,
    {
        match node {
            LayoutNode::Leaf { .. } => true,
            LayoutNode::Split { direction, ratio, first, second, rect, .. } => {
                let total = match direction {
                    SplitDirection::Vertical => rect.size.width,
                    SplitDirection::Horizontal => rect.size.height,
                };
                if total < 2 {
                    return false;
                }
                let scaled = share(total, *ratio);
                assert(share.ensures((total, *ratio), scaled));
                let max = total - 1;
                let fe = if scaled < 1 {
                    1
                } else if scaled > max {
                    max
                } else {
                    scaled
                };
                assert(fe == first_extent(*share, extent(*rect, *direction), *ratio));
                let hit = match direction {
                    SplitDirection::Vertical => {
                        let divider_col = rect.position.col + fe;
                        mouse.row >= rect.position.row && mouse.row < rect.position.row
                            + rect.size.height && mouse.col >= divider_col.saturating_sub(
                            SPLIT_TOLERANCE,
                        ) && mouse.col <= divider_col.saturating_add(SPLIT_TOLERANCE)
                    },
                    SplitDirection::Horizontal => {
                        let divider_row = rect.position.row + fe;
                        mouse.col >= rect.position.col && mouse.col < rect.position.col
                            + rect.size.width && mouse.row >= divider_row.saturating_sub(
                            SPLIT_TOLERANCE,
                        ) && mouse.row <= divider_row.saturating_add(SPLIT_TOLERANCE)
                    },
                };
                if hit {
                    return true;
                }
                if !Self::searchable_at(first, mouse, share) {
                    return false;
                }
                if Self::find_split_at(first, mouse, share).is_some() {
                    return true;
                }
                Self::searchable_at(second, mouse, share)
            },
        }
    }

    /// Drags the divider of split `split_id` to `mouse` (see [`resized`]);
    /// `ratio_at` turns an offset into an extent into a ratio.
    pub fn resize_split<G: Fn(usize, usize) -> u32>(
        &mut self,
        split_id: usize,
        mouse: Position,
        ratio_at: &G,
    )
        requires
            total_ratio(*ratio_at),
            single_valued_ratio(*ratio_at),
        ensures
            final(self).root_node() == resized(old(self).root_node(), split_id, mouse, *ratio_at),
            final(self).next_id() == old(self).next_id(),
    {
        let mut root = LayoutNode::Leaf { pane_id: 0, rect: Rect::default() };
        std::mem::swap(&mut root, &mut self.root);
        self.root = Self::resize_node(root, split_id, mouse, ratio_at);
    }

    fn resize_node<G: Fn(usize, usize) -> u32>(
        node: LayoutNode,
        split_id: usize,
        mouse: Position,
        ratio_at: &G,
    ) -> (r: LayoutNode)
        requires
            total_ratio(*ratio_at),
            single_valued_ratio(*ratio_at),
        ensures
            r == resized(node, split_id, mouse, *ratio_at),
        decreases node,
    {
        match node {
            LayoutNode::Leaf { pane_id, rect } => LayoutNode::Leaf { pane_id, rect },
            LayoutNode::Split { split_id: id, direction, ratio, first, second, rect } => {
                if id == split_id {
                    let (local, total) = match direction {
                        SplitDirection::Vertical => (
                            mouse.col.saturating_sub(rect.position.col),
                            rect.size.width,
                        ),
                        SplitDirection::Horizontal => (
                            mouse.row.saturating_sub(rect.position.row),
                            rect.size.height,
                        ),
                    };
                    let new_ratio = ratio_at(local, total);
                    assert(ratio_at.ensures((local, total), new_ratio));
                    LayoutNode::Split { split_id: id, direction, ratio: new_ratio, first, second, rect }
                } else {
                    let f = Self::resize_node(*first, split_id, mouse, ratio_at);
                    let s = Self::resize_node(*second, split_id, mouse, ratio_at);
                    LayoutNode::Split {
                        split_id: id,
                        direction,
                        ratio,
                        first: Box::new(f),
                        second: Box::new(s),
                        rect,
                    }
                }
            },
        }
    }

    /// The panes of the leaves with their areas, left to right.
    pub fn collect_leaf_layouts(&self) -> (r: Vec<(usize, Rect)>)
        ensures
            r@ == leaf_layouts(self.root_node()),
    {
        let mut layouts: Vec<(usize, Rect)> = Vec::new();
        Self::collect_layouts(&self.root, &mut layouts);
        assert(layouts@ =~= leaf_layouts(self.root_node()));
        layouts
    }

    fn collect_layouts(node: &LayoutNode, layouts: &mut Vec<(usize, Rect)>)
        ensures
            final(layouts)@ == old(layouts)@ + leaf_layouts(*node),
        decreases node,
    {
        match node {
            LayoutNode::Leaf { pane_id, rect } => {
                layouts.push((*pane_id, *rect));
            },
            LayoutNode::Split { first, second, .. } => {
                Self::collect_layouts(first, layouts);
                Self::collect_layouts(second, layouts);
                assert(final(layouts)@ =~= old(layouts)@ + leaf_layouts(*node));
            },
        }
    }
}

} // verus!

verus! {

/// Laying a tree out in `rect` keeps its leaves and their order, gives the
/// root the area `rect`, and makes every split divide its area exactly in two
/// parts of at least one cell each (when it has two cells to give).
pub proof fn lemma_layout_tiles<F: Fn(usize, u32) -> usize>(node: LayoutNode, rect: Rect, share: F)
    ensures
        tiles(laid_out(node, rect, share)),
        leaf_ids(laid_out(node, rect, share)) == leaf_ids(node),
        laid_out(node, rect, share).node_rect() == rect,
    decreases node,
{
    match node {
        LayoutNode::Leaf { .. } => {},
        LayoutNode::Split { split_id, direction, ratio, first, second, .. } => {
            let fe = first_extent(share, extent(rect, direction), ratio);
            lemma_layout_tiles(*first, first_part(rect, direction, fe), share);
            lemma_layout_tiles(*second, second_part(rect, direction, fe), share);
        },
    }
}

/// A pane that no leaf holds is not found by a split.
proof fn lemma_split_absent(
    node: LayoutNode,
    target: usize,
    new_pane_id: usize,
    direction: SplitDirection,
    ratio: u32,
    split_id: usize,
)
    requires
        !leaf_ids(node).contains(target),
    ensures
        split_at_leaf(node, target, new_pane_id, direction, ratio, split_id) == Err::<
            LayoutNode,
            LayoutError,
        >(LayoutError::PaneNotFound),
    decreases node,
{
    match node {
        LayoutNode::Leaf { .. } => {
            assert(leaf_ids(node)[0] == node->Leaf_pane_id);
        },
        LayoutNode::Split { first, second, .. } => {
            let a = leaf_ids(*first);
            let b = leaf_ids(*second);
            assert forall|i: int| 0 <= i < a.len() implies a[i] != target by {
                assert((a + b)[i] == a[i]);
            }
            assert forall|i: int| 0 <= i < b.len() implies b[i] != target by {
                assert((a + b)[a.len() + i] == b[i]);
            }
            lemma_split_absent(*first, target, new_pane_id, direction, ratio, split_id);
            lemma_split_absent(*second, target, new_pane_id, direction, ratio, split_id);
        },
    }
}

/// Splitting a pane that no leaf holds fails with [`LayoutError::PaneNotFound`];
/// a split that succeeds inserts the new pane just after the split one in
/// the order of the leaves, and changes no other leaf.
pub proof fn lemma_split_inserts_leaf(
    node: LayoutNode,
    target: usize,
    new_pane_id: usize,
    direction: SplitDirection,
    ratio: u32,
    split_id: usize,
)
    ensures
        !leaf_ids(node).contains(target) ==> split_at_leaf(
            node,
            target,
            new_pane_id,
            direction,
            ratio,
            split_id,
        ) == Err::<LayoutNode, LayoutError>(LayoutError::PaneNotFound),
        split_at_leaf(node, target, new_pane_id, direction, ratio, split_id) matches Ok(n)
            ==> exists|i: int|
            0 <= i < leaf_ids(node).len() && leaf_ids(node)[i] == target && leaf_ids(n)
                == leaf_ids(node).insert(i + 1, new_pane_id),
    decreases node,
{
    if !leaf_ids(node).contains(target) {
        lemma_split_absent(node, target, new_pane_id, direction, ratio, split_id);
    }
    match node {
        LayoutNode::Leaf { pane_id, rect } => {
            if pane_id == target {
                assert(leaf_ids(node)[0] == target);
                assert(leaf_ids(LayoutNode::Leaf { pane_id, rect }) == seq![pane_id]);
                assert(leaf_ids(LayoutNode::Leaf { pane_id: new_pane_id, rect }) == seq![new_pane_id]);
                assert(seq![pane_id] + seq![new_pane_id] =~= seq![pane_id].insert(1, new_pane_id));
            }
        },
        LayoutNode::Split { first, second, .. } => {
            let a = leaf_ids(*first);
            let b = leaf_ids(*second);
            lemma_split_inserts_leaf(*first, target, new_pane_id, direction, ratio, split_id);
            lemma_split_inserts_leaf(*second, target, new_pane_id, direction, ratio, split_id);
            match split_at_leaf(*first, target, new_pane_id, direction, ratio, split_id) {
                Ok(f) => {
                    let i = choose|i: int|
                        0 <= i < a.len() && a[i] == target && leaf_ids(f) == a.insert(
                            i + 1,
                            new_pane_id,
                        );
                    assert((a + b)[i] == target);
                    assert(leaf_ids(f) + b =~= (a + b).insert(i + 1, new_pane_id));
                },
                Err(_) => match split_at_leaf(
                    *second,
                    target,
                    new_pane_id,
                    direction,
                    ratio,
                    split_id,
                ) {
                    Ok(s) => {
                        let j = choose|j: int|
                            0 <= j < b.len() && b[j] == target && leaf_ids(s) == b.insert(
                                j + 1,
                                new_pane_id,
                            );
                        assert((a + b)[a.len() + j] == target);
                        assert(a + leaf_ids(s) =~= (a + b).insert(a.len() + j + 1, new_pane_id));
                    },
                    Err(_) => {},
                },
            }
        },
    }
}

/// Removing a pane that no leaf holds changes nothing.
pub proof fn lemma_remove_absent(node: LayoutNode, id: usize)
    requires
        !leaf_ids(node).contains(id),
    ensures
        removed(node, id) == Some(node),
    decreases node,
{
    match node {
        LayoutNode::Leaf { .. } => {
            assert(leaf_ids(node)[0] == node->Leaf_pane_id);
        },
        LayoutNode::Split { first, second, .. } => {
            let a = leaf_ids(*first);
            let b = leaf_ids(*second);
            assert forall|i: int| 0 <= i < a.len() implies a[i] != id by {
                assert((a + b)[i] == a[i]);
            }
            assert forall|i: int| 0 <= i < b.len() implies b[i] != id by {
                assert((a + b)[a.len() + i] == b[i]);
            }
            lemma_remove_absent(*first, id);
            lemma_remove_absent(*second, id);
        },
    }
}

/// Removing the pane that a split just added gives back the tree as it was
/// before the split.
pub proof fn lemma_split_then_remove(
    node: LayoutNode,
    target: usize,
    new_pane_id: usize,
    direction: SplitDirection,
    ratio: u32,
    split_id: usize,
)
    requires
        !leaf_ids(node).contains(new_pane_id),
        split_at_leaf(node, target, new_pane_id, direction, ratio, split_id) is Ok,
    ensures
        removed(
            split_at_leaf(node, target, new_pane_id, direction, ratio, split_id)->Ok_0,
            new_pane_id,
        ) == Some(node),
    decreases node,
{
    match node {
        LayoutNode::Leaf { pane_id, rect } => {
            assert(leaf_ids(node)[0] == pane_id);
            assert(pane_id != new_pane_id);
            assert(removed(LayoutNode::Leaf { pane_id, rect }, new_pane_id) == Some(node));
            assert(removed(LayoutNode::Leaf { pane_id: new_pane_id, rect }, new_pane_id) is None);
        },
        LayoutNode::Split { first, second, .. } => {
            let a = leaf_ids(*first);
            let b = leaf_ids(*second);
            assert forall|i: int| 0 <= i < a.len() implies a[i] != new_pane_id by {
                assert((a + b)[i] == a[i]);
            }
            assert forall|i: int| 0 <= i < b.len() implies b[i] != new_pane_id by {
                assert((a + b)[a.len() + i] == b[i]);
            }
            lemma_remove_absent(*first, new_pane_id);
            lemma_remove_absent(*second, new_pane_id);
            if split_at_leaf(*first, target, new_pane_id, direction, ratio, split_id) is Ok {
                lemma_split_then_remove(*first, target, new_pane_id, direction, ratio, split_id);
            } else {
                lemma_split_then_remove(*second, target, new_pane_id, direction, ratio, split_id);
            }
        },
    }
}

/// Only a lone leaf of the pane disappears entirely when it is removed.
pub proof fn lemma_remove_whole(node: LayoutNode, id: usize)
    ensures
        removed(node, id) is None <==> (node matches LayoutNode::Leaf { pane_id, .. } && pane_id
            == id),
{
}

/// The parts of a sequence without duplicates have none.
proof fn lemma_no_duplicates_parts(a: Seq<usize>, b: Seq<usize>)
    requires
        (a + b).no_duplicates(),
    ensures
        a.no_duplicates(),
        b.no_duplicates(),
        forall|i: int, j: int| 0 <= i < a.len() && 0 <= j < b.len() ==> a[i] != b[j],
{
    assert forall|i: int, j: int| 0 <= i < a.len() && 0 <= j < a.len() && i != j implies a[i]
        != a[j] by {
        assert((a + b)[i] == a[i] && (a + b)[j] == a[j]);
    }
    assert forall|i: int, j: int| 0 <= i < b.len() && 0 <= j < b.len() && i != j implies b[i]
        != b[j] by {
        assert((a + b)[a.len() + i] == b[i] && (a + b)[a.len() + j] == b[j]);
    }
    assert forall|i: int, j: int| 0 <= i < a.len() && 0 <= j < b.len() implies a[i] != b[j] by {
        assert((a + b)[i] == a[i] && (a + b)[a.len() + j] == b[j]);
    }
}

/// Keeping the elements other than `id` of the one-element sequence `[id]`
/// keeps none.
proof fn lemma_filter_only(id: usize)
    ensures
        seq![id].filter(|x: usize| x != id) == Seq::<usize>::empty(),
{
    reveal_with_fuel(Seq::filter, 2);
    assert(seq![id].drop_last() =~= Seq::<usize>::empty());
}

/// Removing a pane from a tree whose leaves hold distinct panes drops just
/// that pane from the order of the leaves.
pub proof fn lemma_remove_drops_leaf(node: LayoutNode, id: usize)
    requires
        leaf_ids(node).no_duplicates(),
    ensures
        removed(node, id) matches Some(n) ==> leaf_ids(n) == leaf_ids(node).filter(
            |x: usize| x != id,
        ),
    decreases node,
{
    let pred = |x: usize| x != id;
    match node {
        LayoutNode::Leaf { pane_id, .. } => {
            if pane_id != id {
                lemma_filter_absent(seq![pane_id], id);
            }
        },
        LayoutNode::Split { first, second, .. } => {
            let a = leaf_ids(*first);
            let b = leaf_ids(*second);
            lemma_no_duplicates_parts(a, b);
            lemma_remove_drops_leaf(*first, id);
            lemma_remove_drops_leaf(*second, id);
            lemma_remove_whole(*first, id);
            lemma_remove_whole(*second, id);
            Seq::filter_distributes_over_add(a, b, pred);
            if removed(*first, id) is None {
                assert(a =~= seq![id]);
                assert forall|i: int| 0 <= i < b.len() implies b[i] != id by {
                    assert(a[0] == id);
                }
                lemma_filter_absent(b, id);
                lemma_filter_only(id);
                assert(a.filter(pred) + b.filter(pred) =~= b);
            } else if removed(*second, id) is None {
                assert(b =~= seq![id]);
                assert forall|i: int| 0 <= i < a.len() implies a[i] != id by {
                    assert(b[0] == id);
                }
                lemma_filter_absent(a, id);
                lemma_filter_only(id);
                assert(a.filter(pred) + b.filter(pred) =~= a);
            }
        },
    }
}

/// Keeping the elements other than `id` of a sequence without `id` keeps them all.
proof fn lemma_filter_absent(s: Seq<usize>, id: usize)
    requires
        forall|i: int| 0 <= i < s.len() ==> s[i] != id,
    ensures
        s.filter(|x: usize| x != id) == s,
    decreases s.len(),
{
    reveal(Seq::filter);
    if s.len() > 0 {
        lemma_filter_absent(s.drop_last(), id);
        assert(s.drop_last().push(s.last()) =~= s);
    }
}

/// Every area of a tree laid out in an area without overflow is without
/// overflow.
pub proof fn lemma_layout_fits<F: Fn(usize, u32) -> usize>(node: LayoutNode, rect: Rect, share: F)
    requires
        rect_fits(rect),
    ensures
        rects_fit(laid_out(node, rect, share)),
    decreases node,
{
    match node {
        LayoutNode::Leaf { .. } => {},
        LayoutNode::Split { direction, ratio, first, second, .. } => {
            let fe = first_extent(share, extent(rect, direction), ratio);
            lemma_layout_fits(*first, first_part(rect, direction, fe), share);
            lemma_layout_fits(*second, second_part(rect, direction, fe), share);
        },
    }
}

/// Splitting, removing and dragging keep every area without overflow.
pub proof fn lemma_changes_fit<G: Fn(usize, usize) -> u32>(
    node: LayoutNode,
    target: usize,
    new_pane_id: usize,
    direction: SplitDirection,
    ratio: u32,
    split_id: usize,
    mouse: Position,
    ratio_at: G,
)
    requires
        rects_fit(node),
    ensures
        split_at_leaf(node, target, new_pane_id, direction, ratio, split_id) matches Ok(n)
            ==> rects_fit(n),
        removed(node, target) matches Some(n) ==> rects_fit(n),
        rects_fit(resized(node, split_id, mouse, ratio_at)),
    decreases node,
{
    match node {
        LayoutNode::Leaf { pane_id, rect } => {
            assert(rects_fit(LayoutNode::Leaf { pane_id, rect }));
            assert(rects_fit(LayoutNode::Leaf { pane_id: new_pane_id, rect }));
        },
        LayoutNode::Split { first, second, .. } => {
            lemma_changes_fit(
                *first,
                target,
                new_pane_id,
                direction,
                ratio,
                split_id,
                mouse,
                ratio_at,
            );
            lemma_changes_fit(
                *second,
                target,
                new_pane_id,
                direction,
                ratio,
                split_id,
                mouse,
                ratio_at,
            );
        },
    }
}

/// A tree has at least one leaf, and its leaf layouts list the panes of
/// its leaves.
pub proof fn lemma_leaves_nonempty(node: LayoutNode)
    ensures
        leaf_layouts(node).len() >= 1,
        leaf_layouts(node).len() == leaf_ids(node).len(),
        forall|i: int| 0 <= i < leaf_ids(node).len() ==> #[trigger] leaf_layouts(node)[i].0
            == leaf_ids(node)[i],
    decreases node,
{
    match node {
        LayoutNode::Leaf { .. } => {},
        LayoutNode::Split { first, second, .. } => {
            lemma_leaves_nonempty(*first);
            lemma_leaves_nonempty(*second);
            let a = leaf_layouts(*first);
            let b = leaf_layouts(*second);
            let x = leaf_ids(*first);
            let y = leaf_ids(*second);
            assert forall|i: int| 0 <= i < (x + y).len() implies #[trigger] (a + b)[i].0 == (x
                + y)[i] by {
                if i < x.len() {
                    assert((a + b)[i] == a[i]);
                } else {
                    assert((a + b)[i] == b[i - a.len()]);
                }
            }
        },
    }
}

/// Whether `node` holds, at any depth, a split `split_id` in `direction`
/// whose first part is the leaf of pane `a` and whose second part is the
/// leaf of pane `b`.
pub open spec fn holds_split(
    node: LayoutNode,
    split_id: usize,
    direction: SplitDirection,
    a: usize,
    b: usize,
) -> bool
    decreases node,
{
    match node {
        LayoutNode::Leaf { .. } => false,
        LayoutNode::Split { split_id: sid, direction: d, first, second, .. } => {
            ||| (sid == split_id && d == direction && (*first matches LayoutNode::Leaf {
                pane_id,
                ..
            } && pane_id == a) && (*second matches LayoutNode::Leaf { pane_id, .. } && pane_id
                == b))
            ||| holds_split(*first, split_id, direction, a, b)
            ||| holds_split(*second, split_id, direction, a, b)
        },
    }
}

/// A split that succeeds puts the split pane and the new pane side by side
/// in the asked direction: the tree then holds a split with the given id
/// and direction whose first part is the split pane and whose second part
/// is the new pane.
pub proof fn lemma_split_has_asked_direction(
    node: LayoutNode,
    target: usize,
    new_pane_id: usize,
    direction: SplitDirection,
    ratio: u32,
    split_id: usize,
)
    ensures
        split_at_leaf(node, target, new_pane_id, direction, ratio, split_id) matches Ok(n)
            ==> holds_split(n, split_id, direction, target, new_pane_id),
    decreases node,
{
    match node {
        LayoutNode::Leaf { .. } => {},
        LayoutNode::Split { first, second, .. } => {
            lemma_split_has_asked_direction(*first, target, new_pane_id, direction, ratio, split_id);
            lemma_split_has_asked_direction(*second, target, new_pane_id, direction, ratio, split_id);
        },
    }
}

/// A vertical split puts its two parts side by side: both span the whole
/// height, the first starts at the area's left edge and is `fe` cells wide,
/// and the second starts where the first ends and takes the rest of the width.
pub proof fn lemma_vertical_parts_side_by_side(rect: Rect, fe: int)
    requires
        0 <= fe <= rect.size.width,
        rect_fits(rect),
    ensures
        first_part(rect, SplitDirection::Vertical, fe).position == rect.position,
        first_part(rect, SplitDirection::Vertical, fe).size.width == fe,
        first_part(rect, SplitDirection::Vertical, fe).size.height == rect.size.height,
        second_part(rect, SplitDirection::Vertical, fe).position.row == rect.position.row,
        second_part(rect, SplitDirection::Vertical, fe).position.col == rect.position.col + fe,
        second_part(rect, SplitDirection::Vertical, fe).size.width == rect.size.width - fe,
        second_part(rect, SplitDirection::Vertical, fe).size.height == rect.size.height,
{
}

/// A horizontal split puts its two parts one above the other: both span the
/// whole width, the first starts at the area's top and is `fe` cells high,
/// and the second starts where the first ends and takes the rest of the height.
pub proof fn lemma_horizontal_parts_stacked(rect: Rect, fe: int)
    requires
        0 <= fe <= rect.size.height,
        rect_fits(rect),
    ensures
        first_part(rect, SplitDirection::Horizontal, fe).position == rect.position,
        first_part(rect, SplitDirection::Horizontal, fe).size.height == fe,
        first_part(rect, SplitDirection::Horizontal, fe).size.width == rect.size.width,
        second_part(rect, SplitDirection::Horizontal, fe).position.col == rect.position.col,
        second_part(rect, SplitDirection::Horizontal, fe).position.row == rect.position.row + fe,
        second_part(rect, SplitDirection::Horizontal, fe).size.height == rect.size.height - fe,
        second_part(rect, SplitDirection::Horizontal, fe).size.width == rect.size.width,
{
}

/// Laying a tree out in an area keeps each of its splits: the same id,
/// direction and panes on either side.
pub proof fn lemma_laid_out_keeps_splits<F: Fn(usize, u32) -> usize>(
    node: LayoutNode,
    rect: Rect,
    share: F,
    split_id: usize,
    direction: SplitDirection,
    a: usize,
    b: usize,
)
    requires
        holds_split(node, split_id, direction, a, b),
    ensures
        holds_split(laid_out(node, rect, share), split_id, direction, a, b),
    decreases node,
{
    match node {
        LayoutNode::Leaf { .. } => {},
        LayoutNode::Split { direction: d, ratio, first, second, .. } => {
            let fe = first_extent(share, extent(rect, d), ratio);
            if holds_split(*first, split_id, direction, a, b) {
                lemma_laid_out_keeps_splits(
                    *first,
                    first_part(rect, d, fe),
                    share,
                    split_id,
                    direction,
                    a,
                    b,
                );
            } else if holds_split(*second, split_id, direction, a, b) {
                lemma_laid_out_keeps_splits(
                    *second,
                    second_part(rect, d, fe),
                    share,
                    split_id,
                    direction,
                    a,
                    b,
                );
            } else {
                let lf = laid_out(*first, first_part(rect, d, fe), share);
                let ls = laid_out(*second, second_part(rect, d, fe), share);
                assert(lf matches LayoutNode::Leaf { pane_id, .. } && pane_id == a);
                assert(ls matches LayoutNode::Leaf { pane_id, .. } && pane_id == b);
            }
        },
    }
}

} // verus!
