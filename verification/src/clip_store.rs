//! Clip chains: linked lists of clip items, each node parented to another.
use vstd::prelude::*;

use crate::ids::{ClipChainId, ImageKey, RequestIndex, SpatialNodeIndex};
use crate::layout::{
    LayoutPoint, LayoutRect, LayoutSize, LayoutVector2D, RectF, SizeF,
};

verus! {

/// Whether a clip keeps what is inside its shape, or what is outside.
#[derive(Clone, Copy, Debug)]
pub enum ClipMode {
    Clip,
    ClipOut,
}

/// The radii of the corners of a rounded rectangle.
#[derive(Clone, Copy, Debug)]
pub struct BorderRadius {
    pub top_left: SizeF,
    pub top_right: SizeF,
    pub bottom_left: SizeF,
    pub bottom_right: SizeF,
}

/// A rounded rectangle to clip by.
#[derive(Clone, Copy, Debug)]
pub struct ComplexClipRegion {
    pub rect: RectF,
    pub radii: BorderRadius,
    pub mode: ClipMode,
}

/// An image to clip by, where the display list places it.
#[derive(Clone, Copy, Debug)]
pub struct ImageMask {
    pub image: ImageKey,
    pub rect: RectF,
    pub repeat: bool,
}

/// An image to clip by, where the flattened scene places it.
#[derive(Debug)]
pub struct PlacedImageMask {
    pub image: ImageKey,
    pub rect: LayoutRect,
    pub repeat: bool,
}

impl PlacedImageMask {
    /// The same mask again.
    pub fn copy(&self) -> (r: PlacedImageMask)
        ensures
            r == *self,
    {
        PlacedImageMask { image: self.image, rect: self.rect.copy(), repeat: self.repeat }
    }
}

/// What a clip item is known by: items with the same key are the same item.
#[derive(Debug)]
pub enum ClipItemKey {
    Rectangle(LayoutSize, ClipMode),
    RoundedRect(LayoutSize, BorderRadius, ClipMode),
    ImageMask(PlacedImageMask),
    /// A clip item of the renderer's own, by its number.
    Other(u64),
}

/// The shapes that one clip of a display list consists of.
#[derive(Debug)]
pub struct ClipRegion<'a> {
    pub main: LayoutRect,
    pub image_mask: Option<PlacedImageMask>,
    /// Rounded rectangles, and what each of them is moved by.
    pub complex_clips: Option<(&'a Vec<ComplexClipRegion>, LayoutVector2D)>,
}

impl<'a> ClipRegion<'a> {
    /// The region of a clip whose shapes are placed relative to a reference
    /// frame: each of them is moved by the same offset.
    pub open spec fn spec_create_for_clip_node(
        rect: RectF,
        complex_clips: &'a Vec<ComplexClipRegion>,
        image_mask: Option<ImageMask>,
        reference_frame_relative_offset: LayoutVector2D,
    ) -> ClipRegion<'a> {
        ClipRegion {
            main: LayoutRect::Value(rect).translate(reference_frame_relative_offset),
            image_mask: match image_mask {
                Some(mask) => Some(
                    PlacedImageMask {
                        image: mask.image,
                        rect: LayoutRect::Value(mask.rect).translate(
                            reference_frame_relative_offset,
                        ),
                        repeat: mask.repeat,
                    },
                ),
                None => None,
            },
            complex_clips: Some((complex_clips, reference_frame_relative_offset)),
        }
    }

    #[verifier::when_used_as_spec(spec_create_for_clip_node)]
    pub fn create_for_clip_node(
        rect: RectF,
        complex_clips: &'a Vec<ComplexClipRegion>,
        image_mask: Option<ImageMask>,
        reference_frame_relative_offset: LayoutVector2D,
    ) -> (r: ClipRegion<'a>)
        ensures
            r == ClipRegion::spec_create_for_clip_node(
                rect,
                complex_clips,
                image_mask,
                reference_frame_relative_offset,
            ),
    {
        ClipRegion {
            main: LayoutRect::Value(rect).translate(reference_frame_relative_offset.copy()),
            image_mask: match image_mask {
                Some(mask) => Some(
                    PlacedImageMask {
                        image: mask.image,
                        rect: LayoutRect::Value(mask.rect).translate(
                            reference_frame_relative_offset.copy(),
                        ),
                        repeat: mask.repeat,
                    },
                ),
                None => None,
            },
            complex_clips: Some((complex_clips, reference_frame_relative_offset)),
        }
    }

    /// The region of a clip that is one rectangle.
    pub open spec fn spec_create_for_clip_node_with_local_clip(
        rect: RectF,
        reference_frame_relative_offset: LayoutVector2D,
    ) -> ClipRegion<'a> {
        ClipRegion {
            main: LayoutRect::Value(rect).translate(reference_frame_relative_offset),
            image_mask: None,
            complex_clips: None,
        }
    }

    #[verifier::when_used_as_spec(spec_create_for_clip_node_with_local_clip)]
    pub fn create_for_clip_node_with_local_clip(
        rect: RectF,
        reference_frame_relative_offset: LayoutVector2D,
    ) -> (r: ClipRegion<'a>)
        ensures
            r == ClipRegion::spec_create_for_clip_node_with_local_clip(
                rect,
                reference_frame_relative_offset,
            ),
    {
        ClipRegion {
            main: LayoutRect::Value(rect).translate(reference_frame_relative_offset),
            image_mask: None,
            complex_clips: None,
        }
    }
}

/// One clip item of a clip chain, and the chain that it adds to.
#[derive(Debug)]
pub struct ClipChainNode {
    pub handle: RequestIndex,
    pub local_pos: LayoutPoint,
    pub spatial_node_index: SpatialNodeIndex,
    pub parent_clip_chain_id: ClipChainId,
}

/// Whether `id` stands for no node, or for one of the first `n`.
pub open spec fn clip_id_within(id: ClipChainId, n: nat) -> bool {
    id matches ClipChainId::Node(i) ==> i < n
}

/// Whether every node was there before the nodes that are parented to it.
pub open spec fn clip_nodes_ordered(nodes: Seq<ClipChainNode>) -> bool {
    forall|i: int|
        0 <= i < nodes.len() ==> clip_id_within(
            (#[trigger] nodes[i]).parent_clip_chain_id,
            i as nat,
        )
}

/// The number of nodes from `id` up to the root of its chain.
pub open spec fn clip_chain_len(nodes: Seq<ClipChainNode>, id: ClipChainId) -> nat
    decreases
            match id {
                ClipChainId::Node(i) => i + 1,
                _ => 0,
            },
{
    match id {
        ClipChainId::Node(i) => if i < nodes.len() && clip_id_within(
            nodes[i as int].parent_clip_chain_id,
            i as nat,
        ) {
            1 + clip_chain_len(nodes, nodes[i as int].parent_clip_chain_id)
        } else {
            0
        },
        _ => 0,
    }
}

/// The store of all clip chains.
pub struct ClipStore {
    pub clip_chain_nodes: Vec<ClipChainNode>,
}

impl View for ClipStore {
    type V = Seq<ClipChainNode>;

    open spec fn view(&self) -> Seq<ClipChainNode> {
        self.clip_chain_nodes@
    }
}

impl ClipStore {
    /// An empty store.
    pub fn new() -> (r: ClipStore)
        ensures
            r@ == Seq::<ClipChainNode>::empty(),
    {
        ClipStore { clip_chain_nodes: Vec::new() }
    }

    /// Adds a node, and returns its id.
    pub fn add_clip_chain_node(
        &mut self,
        handle: RequestIndex,
        local_pos: LayoutPoint,
        spatial_node_index: SpatialNodeIndex,
        parent_clip_chain_id: ClipChainId,
    ) -> (r: ClipChainId)
        ensures
            final(self)@ == old(self)@.push(
                ClipChainNode { handle, local_pos, spatial_node_index, parent_clip_chain_id },
            ),
            r == ClipChainId::Node(old(self)@.len() as usize),
            old(self)@.len() <= usize::MAX,
    {
        let id = ClipChainId::Node(self.clip_chain_nodes.len());
        self.clip_chain_nodes.push(
            ClipChainNode { handle, local_pos, spatial_node_index, parent_clip_chain_id },
        );
        id
    }

    /// The node at position `index`.
    pub fn get_clip_chain(&self, index: usize) -> (r: &ClipChainNode)
        requires
            index < self@.len(),
        ensures
            *r == self@[index as int],
    {
        &self.clip_chain_nodes[index]
    }
}

/// A node that is added leaves the chains that are there as they are.
pub proof fn lemma_clip_chain_len_push(
    nodes: Seq<ClipChainNode>,
    node: ClipChainNode,
    id: ClipChainId,
)
    requires
        clip_id_within(id, nodes.len()),
    ensures
        clip_chain_len(nodes.push(node), id) == clip_chain_len(nodes, id),
    decreases
            match id {
                ClipChainId::Node(i) => i + 1,
                _ => 0,
            },
{
    if let ClipChainId::Node(i) = id {
        if clip_id_within(nodes[i as int].parent_clip_chain_id, i as nat) {
            lemma_clip_chain_len_push(nodes, node, nodes[i as int].parent_clip_chain_id);
        }
    }
}

} // verus!
