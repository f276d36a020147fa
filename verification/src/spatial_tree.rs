//! The positioning tree: reference frames, scroll frames and sticky frames.
use vstd::prelude::*;

use crate::ids::{
    root_spatial_node_index, ExternalScrollId, PipelineId, SpatialNodeIndex,
};
use crate::layout::{F32, LayoutRect, LayoutVector2D, SizeF, VectorF};

verus! {

/// The transform-style property of CSS.
#[derive(Clone, Copy, Debug, PartialEq, Eq, Structural)]
pub enum TransformStyle {
    Flat,
    Preserve3D,
}

/// A transform: the identity, or one that the embedder keeps, by its number.
#[derive(Clone, Copy, Debug)]
pub enum SourceTransform {
    Identity,
    Given(u64),
}

/// What a reference frame is for.
#[derive(Clone, Copy, Debug)]
pub enum ReferenceFrameKind {
    Transform,
    Perspective,
}

/// Which events a scroll frame reacts to.
#[derive(Clone, Copy, Debug)]
pub enum ScrollSensitivity {
    ScriptAndInputEvents,
    Script,
}

/// Where a scroll frame comes from: every pipeline has one at its root, the
/// others are items of a display list.
#[derive(Clone, Copy, Debug)]
pub enum ScrollFrameKind {
    PipelineRoot,
    Explicit,
}

/// How far a sticky frame may move.
#[derive(Clone, Copy, Debug)]
pub struct StickyOffsetBounds {
    pub min: F32,
    pub max: F32,
}

/// The margins at which a sticky frame sticks.
#[derive(Clone, Copy, Debug)]
pub struct StickyMargins {
    pub top: Option<F32>,
    pub right: Option<F32>,
    pub bottom: Option<F32>,
    pub left: Option<F32>,
}

#[derive(Debug)]
pub struct ReferenceFrameInfo {
    pub transform_style: TransformStyle,
    pub source_transform: SourceTransform,
    pub kind: ReferenceFrameKind,
    pub origin_in_parent_reference_frame: LayoutVector2D,
}

#[derive(Debug)]
pub struct ScrollFrameInfo {
    pub external_id: Option<ExternalScrollId>,
    pub frame_rect: LayoutRect,
    pub content_size: SizeF,
    pub scroll_sensitivity: ScrollSensitivity,
    pub frame_kind: ScrollFrameKind,
}

#[derive(Debug)]
pub struct StickyFrameInfo {
    pub frame_rect: LayoutRect,
    pub margins: StickyMargins,
    pub vertical_offset_bounds: StickyOffsetBounds,
    pub horizontal_offset_bounds: StickyOffsetBounds,
    pub previously_applied_offset: VectorF,
}

#[derive(Debug)]
pub enum SpatialNodeType {
    ReferenceFrame(ReferenceFrameInfo),
    ScrollFrame(ScrollFrameInfo),
    StickyFrame(StickyFrameInfo),
}

/// A node of the positioning tree.
#[derive(Debug)]
pub struct SpatialNode {
    pub parent: Option<SpatialNodeIndex>,
    pub node_type: SpatialNodeType,
    pub pipeline_id: PipelineId,
}

/// Whether the node is a scroll frame that a display list asked for.
pub open spec fn is_explicit_scroll_frame(node: SpatialNode) -> bool {
    node.node_type matches SpatialNodeType::ScrollFrame(info) && info.frame_kind
        is Explicit
}

/// Whether every node but the first has a parent, and comes after it.
pub open spec fn spatial_nodes_ordered(nodes: Seq<SpatialNode>) -> bool {
    forall|i: int|
        0 < i < nodes.len() ==> ((#[trigger] nodes[i]).parent matches Some(p) && p.index < i)
}

/// The scroll root of a node: the outermost explicit scroll frame on the way
/// from the node up to the root of the tree, or that root where there is none.
/// The root of the tree itself does not count as a scroll frame.
pub open spec fn scroll_root(nodes: Seq<SpatialNode>, node: SpatialNodeIndex) -> SpatialNodeIndex
    decreases node.index,
{
    if node == root_spatial_node_index() || node.index >= nodes.len() {
        root_spatial_node_index()
    } else {
        let above = match nodes[node.index as int].parent {
            Some(p) => if p.index < node.index {
                scroll_root(nodes, p)
            } else {
                root_spatial_node_index()
            },
            None => root_spatial_node_index(),
        };
        if above != root_spatial_node_index() {
            above
        } else if is_explicit_scroll_frame(nodes[node.index as int]) {
            node
        } else {
            root_spatial_node_index()
        }
    }
}

/// The positioning tree.
pub struct ClipScrollTree {
    pub spatial_nodes: Vec<SpatialNode>,
}

impl View for ClipScrollTree {
    type V = Seq<SpatialNode>;

    open spec fn view(&self) -> Seq<SpatialNode> {
        self.spatial_nodes@
    }
}

impl ClipScrollTree {
    /// A tree without nodes.
    pub fn new() -> (r: ClipScrollTree)
        ensures
            r@ == Seq::<SpatialNode>::empty(),
    {
        ClipScrollTree { spatial_nodes: Vec::new() }
    }

    /// Adds a node, and returns its index.
    pub fn add_spatial_node(&mut self, node: SpatialNode) -> (r: SpatialNodeIndex)
        ensures
            final(self)@ == old(self)@.push(node),
            r == (SpatialNodeIndex { index: old(self)@.len() as usize }),
            old(self)@.len() <= usize::MAX,
    {
        let index: usize = self.spatial_nodes.len();
        self.spatial_nodes.push(node);
        SpatialNodeIndex { index }
    }

    /// Finds the scroll root of a node.
    pub fn find_scroll_root(&self, spatial_node_index: SpatialNodeIndex) -> (r: SpatialNodeIndex)
        requires
            spatial_nodes_ordered(self@),
            spatial_node_index.index < self@.len(),
        ensures
            r == scroll_root(self@, spatial_node_index),
    {
        let root = root_spatial_node_index();
        let mut scroll_root_index: SpatialNodeIndex = root;
        let mut node_index: SpatialNodeIndex = spatial_node_index;
        while node_index != root
            invariant
                root == root_spatial_node_index(),
                spatial_nodes_ordered(self@),
                node_index.index < self@.len(),
                scroll_root(self@, spatial_node_index) == (if scroll_root(self@, node_index)
                    != root {
                    scroll_root(self@, node_index)
                } else {
                    scroll_root_index
                }),
            decreases node_index.index,
        {
            let node = &self.spatial_nodes[node_index.index];
            match &node.node_type {
                SpatialNodeType::ReferenceFrame(_) => {},
                SpatialNodeType::StickyFrame(_) => {},
                SpatialNodeType::ScrollFrame(info) => {
                    // An explicit scroll root is kept, and the search goes on
                    // up the tree.
                    if let ScrollFrameKind::Explicit = info.frame_kind {
                        scroll_root_index = node_index;
                    }
                },
            }
            node_index = node.parent.unwrap();
        }
        scroll_root_index
    }
}

/// Nodes that are added to the tree change no scroll root.
pub proof fn law_scroll_root_stays(
    nodes: Seq<SpatialNode>,
    node: SpatialNode,
    index: SpatialNodeIndex,
)
    requires
        index.index < nodes.len(),
    ensures
        scroll_root(nodes.push(node), index) == scroll_root(nodes, index),
    decreases index.index,
{
    if let Some(p) = nodes[index.index as int].parent {
        if p.index < index.index {
            law_scroll_root_stays(nodes, node, p);
        }
    }
}

} // verus!
