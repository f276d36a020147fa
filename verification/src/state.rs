//! The state of a scene that is being built, and what each step does to it.
//!
//! These are the mathematical counterparts of the operations of the flattener:
//! each takes a state to the state after the operation.
use std::collections::{HashMap, HashSet};

use vstd::prelude::*;

use crate::clip_store::{ClipChainNode, ClipItemKey, ClipMode, ClipRegion, ComplexClipRegion};
use crate::display_list::{Scene, SpaceAndClipInfo};
use crate::hit_test::{add_to_runs, HitTestingItem, Run};
use crate::ids::{
    root_spatial_node_index, ClipChainId, ClipId, ExternalScrollId, PictureIndex,
    PipelineId, ScrollNodeAndClipChain, SpatialId, SpatialNodeIndex,
};
use crate::layout::{
    ColorF, F32, LayoutPoint, LayoutRect, LayoutSize, LayoutVector2D, SizeF,
};
use crate::mapper::Mapping;
use crate::picture::{
    BlitReason, FilterOp, Instances, Picture3DContext, PictureCompositeKey, PictureCompositeMode,
    PictureOptions, PicturePrimitive, PrimitiveInstance, PrimitiveInstanceKind, PrimitiveRecord,
    PrimitiveStoreContents, RasterSpace, SanitizedFilter, TileCache,
};
use crate::primitives::{
    BaseFontInstance, FontRenderMode, InternRequest, LayoutPrimitiveInfo, Primitive,
    PrimitiveSceneData, Shadow,
};
use crate::shadows::{PendingParts, PendingShadow, ShadowItem};
use crate::spatial_tree::{
    scroll_root, ReferenceFrameInfo, ReferenceFrameKind, ScrollFrameInfo, ScrollFrameKind,
    ScrollSensitivity, SourceTransform, SpatialNode, SpatialNodeType, StickyFrameInfo,
    TransformStyle,
};
use crate::stacking_context::{
    next_request, picture_instance, picture_request, CompositeOps, Context,
    FlattenedStackingContext,
};

verus! {

/// What the embedder decides about how frames are built.
#[derive(Clone, Copy, Debug)]
pub struct FrameBuilderConfig {
    pub default_font_render_mode: FontRenderMode,
    pub enable_picture_caching: bool,
}

/// The state of a scene that is being built.
#[verifier::ext_equal]
pub struct FlattenerState<'a> {
    pub scene: &'a Scene,
    pub font_instances: &'a HashMap<u64, BaseFontInstance>,
    pub output_pipelines: &'a HashSet<u64>,
    pub config: FrameBuilderConfig,
    pub tree: Seq<SpatialNode>,
    pub mapping: Mapping,
    pub sc_stack: Seq<Context>,
    pub pending_shadow_items: Seq<ShadowItem<'a>>,
    pub pipeline_clip_chain_stack: Seq<ClipChainId>,
    pub prim_store: PrimitiveStoreContents,
    pub hit_testing_runs: Seq<Run>,
    pub clip_nodes: Seq<ClipChainNode>,
    pub requests: Seq<InternRequest<'a>>,
    pub root_pic_index: PictureIndex,
}

/// The shapes of a region as clip items with their places: the main rectangle,
/// then the mask, then the rounded rectangles.
pub open spec fn region_items(region: ClipRegion) -> Seq<(LayoutPoint, ClipItemKey)> {
    let main = seq![
        (region.main.origin(), ClipItemKey::Rectangle(region.main.size(), ClipMode::Clip)),
    ];
    let mask = match region.image_mask {
        Some(mask) => seq![(mask.rect.origin(), ClipItemKey::ImageMask(mask))],
        None => Seq::empty(),
    };
    let complex = match region.complex_clips {
        Some((clips, offset)) => clips@.map_values(
            |clip: ComplexClipRegion| complex_clip_item(clip, offset),
        ),
        None => Seq::empty(),
    };
    main + mask + complex
}

/// A rounded rectangle, moved by `offset`, as a clip item with its place.
pub open spec fn complex_clip_item(clip: ComplexClipRegion, offset: LayoutVector2D) -> (
    LayoutPoint,
    ClipItemKey,
) {
    let rect = LayoutRect::Value(clip.rect).translate(offset);
    (rect.origin(), ClipItemKey::RoundedRect(rect.size(), clip.radii, clip.mode))
}

/// Whether a search for the root of a 3D hierarchy, down the stack, comes to a
/// stacking context that takes part in none.
pub open spec fn meets_flat_context(stack: Seq<Context>) -> bool
    decreases stack.len(),
{
    stack.len() > 0 && match stack.last().context_3d {
        Picture3DContext::In { root_data, .. } => root_data is None && meets_flat_context(
            stack.drop_last(),
        ),
        Picture3DContext::Out => true,
    }
}

/// The place in the stack of the root of the 3D hierarchy that its top takes
/// part in; the length of the stack where it takes part in none.
pub open spec fn root_3d_place(stack: Seq<Context>) -> int
    decreases stack.len(),
{
    if stack.len() == 0 {
        0
    } else {
        match stack.last().context_3d {
            Picture3DContext::In { root_data: Some(_), .. } => stack.len() - 1,
            Picture3DContext::In { root_data: None, .. } => {
                let place = root_3d_place(stack.drop_last());
                if place < stack.len() - 1 {
                    place
                } else {
                    stack.len() as int
                }
            },
            Picture3DContext::Out => stack.len() as int,
        }
    }
}

/// A stacking context with one more instance in the list that it holds as the
/// root of a 3D hierarchy.
pub open spec fn add_to_3d_root(sc: Context, instance: PrimitiveInstance) -> Context {
    FlattenedStackingContext {
        context_3d: match sc.context_3d {
            Picture3DContext::In { root_data: Some(prims), ancestor_index } => {
                Picture3DContext::In { root_data: Some(prims.push(instance)), ancestor_index }
            },
            other => other,
        },
        ..sc
    }
}

/// The positioning node of the nearest stacking context, from the top of the
/// stack, that is not preserve-3d: it defines what backface visibility is
/// relative to.
pub open spec fn containing_block(stack: Seq<Context>) -> SpatialNodeIndex
    decreases stack.len(),
{
    if stack.len() == 0 {
        root_spatial_node_index()
    } else if !stack.last().is_3d() {
        stack.last().spatial_node_index
    } else {
        containing_block(stack.drop_last())
    }
}

/// Whether an instance moves with an explicit scroll frame.
pub open spec fn is_scrolled(tree: Seq<SpatialNode>, prim: PrimitiveInstance) -> bool {
    scroll_root(tree, prim.spatial_node_index) != root_spatial_node_index()
}

/// The number of instances before the first that moves with an explicit scroll
/// frame; all of them where none does.
pub open spec fn unscrolled_before(tree: Seq<SpatialNode>, prims: Instances) -> int
    decreases prims.len(),
{
    if prims.len() == 0 {
        0
    } else if is_scrolled(tree, prims[0]) {
        0
    } else {
        1 + unscrolled_before(tree, prims.drop_first())
    }
}

/// The number of instances up to and with the last that moves with an explicit
/// scroll frame; zero where none does.
pub open spec fn scrolled_until(tree: Seq<SpatialNode>, prims: Instances) -> int
    decreases prims.len(),
{
    if prims.len() == 0 {
        0
    } else if is_scrolled(tree, prims.last()) {
        prims.len() as int
    } else {
        scrolled_until(tree, prims.drop_last())
    }
}

/// Whether instances of one list move with different explicit scroll frames.
pub open spec fn several_scroll_roots(tree: Seq<SpatialNode>, prims: Instances) -> bool {
    exists|i: int, j: int|
        0 <= i < prims.len() && 0 <= j < prims.len() && is_scrolled(tree, #[trigger] prims[i])
            && is_scrolled(tree, #[trigger] prims[j]) && scroll_root(
            tree,
            prims[i].spatial_node_index,
        ) != scroll_root(tree, prims[j].spatial_node_index)
}

/// A list of instances, cut around those that a tile cache is to hold.
pub struct CachingCut {
    pub preceding: Instances,
    pub cached: Instances,
    pub trailing: Instances,
    pub scroll_root: SpatialNodeIndex,
}

/// Where to cut a list of instances: a tile cache holds everything from the
/// first to the last that moves with an explicit scroll frame, and simply
/// everything where none does.
pub open spec fn caching_cut(tree: Seq<SpatialNode>, prims: Instances) -> CachingCut {
    let first = unscrolled_before(tree, prims);
    let end = scrolled_until(tree, prims);
    if first < prims.len() {
        CachingCut {
            preceding: prims.subrange(0, first),
            cached: prims.subrange(first, end),
            trailing: prims.subrange(end, prims.len() as int),
            scroll_root: scroll_root(tree, prims[first].spatial_node_index),
        }
    } else {
        CachingCut {
            preceding: Seq::empty(),
            cached: prims,
            trailing: Seq::empty(),
            scroll_root: root_spatial_node_index(),
        }
    }
}

/// A picture that stands for a stacking context, or for a part of it.
pub open spec fn context_picture(
    sc: Context,
    mode: Option<PictureCompositeMode>,
    context_3d: Picture3DContext<Instances>,
    frame_output_pipeline_id: Option<PipelineId>,
    prim_list: Instances,
    optimize: bool,
) -> PicturePrimitive<Instances> {
    PicturePrimitive {
        requested_composite_mode: mode,
        context_3d,
        pipeline_id: sc.pipeline_id,
        frame_output_pipeline_id,
        apply_local_clip_rect: true,
        requested_raster_space: sc.requested_raster_space,
        prim_list,
        spatial_node_index: sc.spatial_node_index,
        local_clip_rect: LayoutRect::Max,
        tile_cache: None,
        options: None,
        optimize,
    }
}

/// How the innermost picture of a stacking context is drawn.
pub open spec fn leaf_composite_mode(sc: Context) -> Option<PictureCompositeMode> {
    match sc.context_3d {
        Picture3DContext::In { .. } => Some(
            PictureCompositeMode::Blit(BlitReason::spec_preserve_3d().union(sc.blit_reason)),
        ),
        Picture3DContext::Out => if sc.blit_reason.is_empty() {
            None
        } else {
            Some(PictureCompositeMode::Blit(sc.blit_reason))
        },
    }
}

/// The innermost picture of a stacking context: what was added to it last.
pub open spec fn leaf_picture(sc: Context) -> PicturePrimitive<Instances> {
    match sc.context_3d {
        Picture3DContext::In { ancestor_index, .. } => context_picture(
            sc,
            leaf_composite_mode(sc),
            Picture3DContext::In { root_data: None, ancestor_index },
            None,
            sc.primitives,
            false,
        ),
        Picture3DContext::Out => context_picture(
            sc,
            leaf_composite_mode(sc),
            Picture3DContext::Out,
            sc.frame_output_pipeline_id,
            sc.primitives,
            false,
        ),
    }
}

/// The outermost picture that was made for a stacking context, and an instance
/// of it.
#[derive(Debug)]
pub struct OutermostPicture {
    pub pic_index: PictureIndex,
    pub instance: PrimitiveInstance,
}

/// A state, together with the outermost picture that was made in it for a
/// stacking context.
pub struct PictureChain<'a> {
    pub state: FlattenerState<'a>,
    pub outer: OutermostPicture,
}

impl<'a> PictureChain<'a> {
    /// The chain with a picture around its outermost picture.
    pub open spec fn wrapped(
        self,
        sc: Context,
        mode: PictureCompositeMode,
        optimize: bool,
    ) -> PictureChain<'a> {
        self.state.add_context_picture(
            sc,
            context_picture(
                sc,
                Some(mode),
                Picture3DContext::Out,
                None,
                seq![self.outer.instance],
                optimize,
            ),
            PictureCompositeKey::Of(Some(mode)),
        )
    }

    /// The chain with the picture of the whole 3D hierarchy around it, where the
    /// stacking context is the root of one.
    pub open spec fn with_3d_container(self, sc: Context) -> PictureChain<'a> {
        match sc.context_3d {
            Picture3DContext::In {
                root_data: Some(prims),
                ancestor_index,
            } => self.state.add_context_picture(
                sc,
                context_picture(
                    sc,
                    None,
                    Picture3DContext::In { root_data: Some(Seq::empty()), ancestor_index },
                    sc.frame_output_pipeline_id,
                    prims.push(self.outer.instance),
                    false,
                ),
                PictureCompositeKey::Identity,
            ),
            _ => self,
        }
    }

    /// The chain with a picture for each filter around it, the first filter
    /// innermost.
    pub open spec fn with_filters(self, sc: Context, filters: Seq<FilterOp>) -> PictureChain<'a>
        decreases filters.len(),
    {
        if filters.len() == 0 {
            self
        } else {
            self.wrapped(
                sc,
                PictureCompositeMode::Filter(SanitizedFilter { filter: filters[0] }),
                true,
            ).with_filters(sc, filters.drop_first())
        }
    }

    /// The chain with a picture for the mix-blend mode around it, if any.
    pub open spec fn with_mix_blend(self, sc: Context, parent_is_empty: bool) -> PictureChain<'a> {
        match sc.composite_ops.mix_blend_mode {
            Some(mode) => if parent_is_empty {
                self
            } else {
                self.wrapped(sc, PictureCompositeMode::MixBlend(mode), false)
            },
            None => self,
        }
    }
}

impl<'a> FlattenerState<'a> {
    /// The id that the next node of the clip store gets.
    pub open spec fn next_clip(self) -> ClipChainId {
        ClipChainId::Node(self.clip_nodes.len() as usize)
    }

    /// The index that the next positioning node gets.
    pub open spec fn next_node(self) -> SpatialNodeIndex {
        SpatialNodeIndex { index: self.tree.len() as usize }
    }

    /// Interns one clip item, and adds it to a chain.
    pub open spec fn add_clip_item(
        self,
        local_pos: LayoutPoint,
        key: ClipItemKey,
        spatial_node_index: SpatialNodeIndex,
        parent_clip_chain_id: ClipChainId,
    ) -> Self {
        FlattenerState {
            requests: self.requests.push(InternRequest::Clip(key)),
            clip_nodes: self.clip_nodes.push(
                ClipChainNode {
                    handle: next_request(self.requests),
                    local_pos,
                    spatial_node_index,
                    parent_clip_chain_id,
                },
            ),
            ..self
        }
    }

    /// Adds clip items to a chain, in order.
    pub open spec fn build_clip_chain(
        self,
        items: Seq<(LayoutPoint, ClipItemKey)>,
        spatial_node_index: SpatialNodeIndex,
        parent_clip_chain_id: ClipChainId,
    ) -> Self
        decreases items.len(),
    {
        if items.len() == 0 {
            self
        } else {
            self.add_clip_item(
                items[0].0,
                items[0].1,
                spatial_node_index,
                parent_clip_chain_id,
            ).build_clip_chain(items.drop_first(), spatial_node_index, self.next_clip())
        }
    }

    /// The last node of a chain to which `count` items are added.
    pub open spec fn built_clip_chain(
        self,
        count: nat,
        parent_clip_chain_id: ClipChainId,
    ) -> ClipChainId {
        if count == 0 {
            parent_clip_chain_id
        } else {
            ClipChainId::Node((self.clip_nodes.len() + count - 1) as usize)
        }
    }

    /// Adds the clip of a display item.
    pub open spec fn add_clip_node(
        self,
        new_node_id: ClipId,
        space_and_clip: SpaceAndClipInfo,
        clip_region: ClipRegion,
    ) -> Self {
        let parent = self.mapping.clips[space_and_clip.clip_id].id;
        let spatial_node = self.mapping.spatial[space_and_clip.spatial_id];
        let items = region_items(clip_region);
        let built = self.build_clip_chain(items, spatial_node, parent);
        FlattenerState {
            mapping: built.mapping.add_clip_chain(
                new_node_id,
                self.built_clip_chain(items.len(), parent),
                items.len() as usize,
            ),
            ..built
        }
    }

    /// Adds the nodes from `from` on, `count` of them, once more, to another
    /// chain.
    pub open spec fn copy_clip_nodes(
        self,
        from: ClipChainId,
        count: nat,
        parent: ClipChainId,
    ) -> Self
        decreases count,
    {
        if count == 0 {
            self
        } else {
            let node = self.clip_nodes[from->Node_0 as int];
            FlattenerState {
                clip_nodes: self.clip_nodes.push(
                    ClipChainNode { parent_clip_chain_id: parent, ..node },
                ),
                ..self
            }.copy_clip_nodes(node.parent_clip_chain_id, (count - 1) as nat, self.next_clip())
        }
    }

    /// Adds what the listed clips consist of to a chain, clip by clip.
    pub open spec fn link_clips(self, clip_ids: Seq<ClipId>, parent: ClipChainId) -> Self
        decreases clip_ids.len(),
    {
        if clip_ids.len() == 0 {
            self
        } else {
            let node = self.mapping.clips[clip_ids[0]];
            self.copy_clip_nodes(node.id, node.count as nat, parent).link_clips(
                clip_ids.drop_first(),
                self.built_clip_chain(node.count as nat, parent),
            )
        }
    }

    /// The last node of the chain that `link_clips` adds to.
    pub open spec fn linked_clips(self, clip_ids: Seq<ClipId>, parent: ClipChainId) -> ClipChainId
        decreases clip_ids.len(),
    {
        if clip_ids.len() == 0 {
            parent
        } else {
            let node = self.mapping.clips[clip_ids[0]];
            self.copy_clip_nodes(node.id, node.count as nat, parent).linked_clips(
                clip_ids.drop_first(),
                self.built_clip_chain(node.count as nat, parent),
            )
        }
    }

    /// Adds a positioning node, and maps its id to it.
    pub open spec fn add_spatial_node(self, id: SpatialId, node: SpatialNode) -> Self {
        FlattenerState {
            tree: self.tree.push(node),
            mapping: self.mapping.map_spatial_node(id, self.next_node()),
            ..self
        }
    }

    /// Adds a reference frame.
    pub open spec fn push_reference_frame(
        self,
        reference_frame_id: SpatialId,
        parent_index: Option<SpatialNodeIndex>,
        pipeline_id: PipelineId,
        transform_style: TransformStyle,
        source_transform: SourceTransform,
        kind: ReferenceFrameKind,
        origin_in_parent_reference_frame: LayoutVector2D,
    ) -> Self {
        self.add_spatial_node(
            reference_frame_id,
            SpatialNode {
                parent: parent_index,
                node_type: SpatialNodeType::ReferenceFrame(
                    ReferenceFrameInfo {
                        transform_style,
                        source_transform,
                        kind,
                        origin_in_parent_reference_frame,
                    },
                ),
                pipeline_id,
            },
        )
    }

    /// Adds a scroll frame.
    pub open spec fn add_scroll_frame(
        self,
        new_node_id: SpatialId,
        parent_node_index: SpatialNodeIndex,
        external_id: Option<ExternalScrollId>,
        pipeline_id: PipelineId,
        frame_rect: LayoutRect,
        content_size: SizeF,
        scroll_sensitivity: ScrollSensitivity,
        frame_kind: ScrollFrameKind,
    ) -> Self {
        self.add_spatial_node(
            new_node_id,
            SpatialNode {
                parent: Some(parent_node_index),
                node_type: SpatialNodeType::ScrollFrame(
                    ScrollFrameInfo {
                        external_id,
                        frame_rect,
                        content_size,
                        scroll_sensitivity,
                        frame_kind,
                    },
                ),
                pipeline_id,
            },
        )
    }

    /// Adds a sticky frame.
    pub open spec fn add_sticky_frame(
        self,
        id: SpatialId,
        parent_node_index: SpatialNodeIndex,
        info: StickyFrameInfo,
    ) -> Self {
        self.add_spatial_node(
            id,
            SpatialNode {
                parent: Some(parent_node_index),
                node_type: SpatialNodeType::StickyFrame(info),
                pipeline_id: id.pipeline_id,
            },
        )
    }

    /// Adds the reference frame and the scroll frame at the root of a pipeline,
    /// the scroll frame right under the reference frame.
    pub open spec fn add_pipeline_frames(
        self,
        pipeline_id: PipelineId,
        parent_index: Option<SpatialNodeIndex>,
        origin: LayoutVector2D,
        viewport_size: SizeF,
        content_size: SizeF,
    ) -> Self {
        self.push_reference_frame(
            SpatialId::root_reference_frame(pipeline_id),
            parent_index,
            pipeline_id,
            TransformStyle::Flat,
            SourceTransform::Identity,
            ReferenceFrameKind::Transform,
            origin,
        ).add_scroll_frame(
            SpatialId::root_scroll_node(pipeline_id),
            self.next_node(),
            Some(ExternalScrollId { id: 0, pipeline_id }),
            pipeline_id,
            LayoutRect::New(
                Box::new(LayoutPoint::Zero),
                Box::new(LayoutSize::Value(viewport_size)),
            ),
            content_size,
            ScrollSensitivity::ScriptAndInputEvents,
            ScrollFrameKind::PipelineRoot,
        )
    }

    /// Adds the root of the whole scene: a clip that clips nothing, and the
    /// frames of the root pipeline.
    pub open spec fn push_root(
        self,
        pipeline_id: PipelineId,
        viewport_size: SizeF,
        content_size: SizeF,
    ) -> Self {
        FlattenerState {
            mapping: self.mapping.add_clip_chain(
                ClipId::root(pipeline_id),
                ClipChainId::Unclipped,
                0,
            ),
            ..self
        }.add_pipeline_frames(
            pipeline_id,
            None,
            LayoutVector2D::Zero,
            viewport_size,
            content_size,
        )
    }

    /// Interns a primitive, and keeps a record of its use.
    pub open spec fn create_primitive(
        self,
        info: LayoutPrimitiveInfo,
        prim: Primitive<'a>,
        reference_frame_relative_offset: LayoutVector2D,
    ) -> Self {
        FlattenerState {
            requests: self.requests.push(
                InternRequest::Primitive {
                    prim,
                    info,
                    data: PrimitiveSceneData {
                        prim_size: info.rect.size(),
                        is_backface_visible: info.is_backface_visible,
                    },
                },
            ),
            prim_store: PrimitiveStoreContents {
                records: self.prim_store.records.push(
                    PrimitiveRecord {
                        data_handle: next_request(self.requests),
                        reference_frame_relative_offset,
                    },
                ),
                ..self.prim_store
            },
            ..self
        }
    }

    /// The instance of the primitive that `create_primitive` interns.
    pub open spec fn created_primitive(
        self,
        info: LayoutPrimitiveInfo,
        clip_chain_id: ClipChainId,
        spatial_node_index: SpatialNodeIndex,
    ) -> PrimitiveInstance {
        PrimitiveInstance {
            prim_origin: info.rect.origin(),
            local_clip_rect: info.clip_rect,
            kind: PrimitiveInstanceKind::Primitive {
                data_handle: next_request(self.requests),
                record: self.prim_store.records.len() as usize,
            },
            clip_chain_id,
            spatial_node_index,
        }
    }

    /// Makes the area of a primitive one that can be hit, where it has a tag.
    pub open spec fn add_primitive_to_hit_testing_list(
        self,
        info: LayoutPrimitiveInfo,
        clip_and_scroll: ScrollNodeAndClipChain,
    ) -> Self {
        match info.tag {
            Some(tag) => FlattenerState {
                hit_testing_runs: add_to_runs(
                    self.hit_testing_runs,
                    HitTestingItem::spec_new(tag, info),
                    clip_and_scroll,
                ),
                ..self
            },
            None => self,
        }
    }

    /// The state with another stacking context on top of the stack.
    pub open spec fn with_top(self, sc: Context) -> Self {
        FlattenerState { sc_stack: self.sc_stack.drop_last().push(sc), ..self }
    }

    /// Adds an instance to the topmost stacking context.
    pub open spec fn add_primitive_to_draw_list(self, prim_instance: PrimitiveInstance) -> Self {
        let top = self.sc_stack.last();
        self.with_top(
            FlattenedStackingContext { primitives: top.primitives.push(prim_instance), ..top },
        )
    }

    /// Makes a primitive, lets it be hit, and draws it.
    pub open spec fn add_prim_to_draw_list(
        self,
        info: LayoutPrimitiveInfo,
        clip_chain_id: ClipChainId,
        clip_and_scroll: ScrollNodeAndClipChain,
        prim: Primitive<'a>,
        reference_frame_relative_offset: LayoutVector2D,
    ) -> Self {
        self.create_primitive(
            info,
            prim,
            reference_frame_relative_offset,
        ).add_primitive_to_hit_testing_list(info, clip_and_scroll).add_primitive_to_draw_list(
            self.created_primitive(info, clip_chain_id, clip_and_scroll.spatial_node_index),
        )
    }

    /// Adds a primitive that casts no shadow, where it is visible.
    pub open spec fn add_nonshadowable_primitive(
        self,
        clip_and_scroll: ScrollNodeAndClipChain,
        info: LayoutPrimitiveInfo,
        clip_items: Seq<(LayoutPoint, ClipItemKey)>,
        prim: Primitive<'a>,
        visible: bool,
        reference_frame_relative_offset: LayoutVector2D,
    ) -> Self {
        if visible {
            self.build_clip_chain(
                clip_items,
                clip_and_scroll.spatial_node_index,
                clip_and_scroll.clip_chain_id,
            ).add_prim_to_draw_list(
                info,
                self.built_clip_chain(clip_items.len(), clip_and_scroll.clip_chain_id),
                clip_and_scroll,
                prim,
                reference_frame_relative_offset,
            )
        } else {
            self
        }
    }

    /// Adds a primitive: at once where no shadow is active, else to the items
    /// that wait for the shadows to be popped, as `pending`.
    pub open spec fn add_primitive(
        self,
        clip_and_scroll: ScrollNodeAndClipChain,
        info: LayoutPrimitiveInfo,
        clip_items: Seq<(LayoutPoint, ClipItemKey)>,
        prim: Primitive<'a>,
        visible: bool,
        pending: ShadowItem<'a>,
        reference_frame_relative_offset: LayoutVector2D,
    ) -> Self {
        if self.pending_shadow_items.len() == 0 {
            self.add_nonshadowable_primitive(
                clip_and_scroll,
                info,
                clip_items,
                prim,
                visible,
                reference_frame_relative_offset,
            )
        } else {
            FlattenerState {
                pending_shadow_items: self.pending_shadow_items.push(pending),
                ..self
            }
        }
    }

    /// Makes a picture, and interns its data.
    pub open spec fn add_picture(
        self,
        picture: PicturePrimitive<Instances>,
        is_backface_visible: bool,
        key: PictureCompositeKey,
    ) -> Self {
        FlattenerState {
            prim_store: self.prim_store.add_picture(picture),
            requests: self.requests.push(picture_request(is_backface_visible, key)),
            ..self
        }
    }

    /// The instance of the picture that `add_picture` makes.
    pub open spec fn added_picture(
        self,
        clip_chain_id: ClipChainId,
        spatial_node_index: SpatialNodeIndex,
    ) -> PrimitiveInstance {
        picture_instance(
            next_request(self.requests),
            self.prim_store.next_picture(),
            clip_chain_id,
            spatial_node_index,
        )
    }

    /// Makes a picture of a stacking context, with an unclipped instance of it.
    pub open spec fn add_context_picture(
        self,
        sc: Context,
        picture: PicturePrimitive<Instances>,
        key: PictureCompositeKey,
    ) -> PictureChain<'a> {
        PictureChain {
            state: self.add_picture(picture, sc.is_backface_visible, key),
            outer: OutermostPicture {
                pic_index: self.prim_store.next_picture(),
                instance: self.added_picture(ClipChainId::Unclipped, sc.spatial_node_index),
            },
        }
    }

    /// Adds an instance to the 3D hierarchy that the topmost stacking context
    /// takes part in.
    pub open spec fn add_primitive_instance_to_3d_root(self, instance: PrimitiveInstance) -> Self {
        let place = root_3d_place(self.sc_stack);
        if 0 <= place < self.sc_stack.len() {
            FlattenerState {
                sc_stack: self.sc_stack.update(
                    place,
                    add_to_3d_root(self.sc_stack[place], instance),
                ),
                ..self
            }
        } else {
            self
        }
    }

    /// Makes a picture of the flat children of the topmost stacking context, and
    /// adds it to the 3D hierarchy, where there are any such children.
    pub open spec fn cut_flat_items(self) -> Self {
        if self.sc_stack.len() > 0 && self.sc_stack.last().has_flat_items() {
            let top = self.sc_stack.last();
            self.with_top(
                FlattenedStackingContext { primitives: Seq::empty(), ..top },
            ).add_picture(
                top.flat_items_picture(),
                top.is_backface_visible,
                PictureCompositeKey::Identity,
            ).add_primitive_instance_to_3d_root(
                self.added_picture(top.clip_chain_id, top.spatial_node_index),
            )
        } else {
            self
        }
    }

    /// Whether the topmost stacking context is preserve-3d.
    pub open spec fn parent_is_3d(self) -> bool {
        self.sc_stack.len() > 0 && self.sc_stack.last().is_3d()
    }

    /// The relation of a new stacking context to a 3D hierarchy: it takes part
    /// in one where it has no filters and its parent, or itself, is preserve-3d;
    /// it is the root of the hierarchy where its parent is not preserve-3d.
    pub open spec fn new_context_3d(
        self,
        composite_ops: CompositeOps<Seq<FilterOp>>,
        transform_style: TransformStyle,
    ) -> Picture3DContext<Instances> {
        if composite_ops.is_empty() && (self.parent_is_3d() || transform_style
            == TransformStyle::Preserve3D) {
            Picture3DContext::In {
                root_data: if self.parent_is_3d() {
                    None
                } else {
                    Some(Seq::empty())
                },
                ancestor_index: containing_block(self.sc_stack),
            }
        } else {
            Picture3DContext::Out
        }
    }

    /// The pipeline, where a new stacking context is the root of it and the
    /// embedder has asked for it as a texture.
    pub open spec fn output_pipeline(self, pipeline_id: PipelineId) -> Option<PipelineId> {
        if (self.sc_stack.len() == 0 || self.sc_stack.last().pipeline_id != pipeline_id)
            && self.output_pipelines@.contains(pipeline_id.key()) {
            Some(pipeline_id)
        } else {
            None
        }
    }

    /// The stacking context that `push_stacking_context` puts on the stack.
    pub open spec fn new_stacking_context(
        self,
        pipeline_id: PipelineId,
        composite_ops: CompositeOps<Seq<FilterOp>>,
        transform_style: TransformStyle,
        is_backface_visible: bool,
        create_tile_cache: bool,
        spatial_node_index: SpatialNodeIndex,
        clip_chain_id: ClipChainId,
        requested_raster_space: RasterSpace,
    ) -> Context {
        FlattenedStackingContext {
            primitives: Seq::empty(),
            is_backface_visible,
            requested_raster_space,
            spatial_node_index,
            clip_chain_id,
            frame_output_pipeline_id: self.output_pipeline(pipeline_id),
            composite_ops,
            blit_reason: if clip_chain_id == ClipChainId::Unclipped {
                BlitReason::empty()
            } else {
                BlitReason::spec_clip()
            },
            pipeline_id,
            transform_style,
            context_3d: self.new_context_3d(composite_ops, transform_style),
            create_tile_cache,
        }
    }

    /// Starts a stacking context.
    pub open spec fn push_stacking_context(
        self,
        pipeline_id: PipelineId,
        composite_ops: CompositeOps<Seq<FilterOp>>,
        transform_style: TransformStyle,
        is_backface_visible: bool,
        create_tile_cache: bool,
        spatial_node_index: SpatialNodeIndex,
        clip_chain_id: ClipChainId,
        requested_raster_space: RasterSpace,
    ) -> Self {
        let cut = self.cut_flat_items();
        FlattenerState {
            sc_stack: cut.sc_stack.push(
                self.new_stacking_context(
                    pipeline_id,
                    composite_ops,
                    transform_style,
                    is_backface_visible,
                    create_tile_cache,
                    spatial_node_index,
                    clip_chain_id,
                    requested_raster_space,
                ),
            ),
            ..cut
        }
    }

    /// Whether picture caching applies to the instances of a stacking context.
    pub open spec fn caches(self, prims: Instances) -> bool {
        self.config.enable_picture_caching && !several_scroll_roots(self.tree, prims)
    }

    /// The picture that holds the cached instances.
    pub open spec fn caching_picture(self, cut: CachingCut) -> PicturePrimitive<Instances> {
        PicturePrimitive {
            requested_composite_mode: Some(
                PictureCompositeMode::TileCache {
                    clear_color: ColorF {
                        r: F32::one(),
                        g: F32::one(),
                        b: F32::one(),
                        a: F32::one(),
                    },
                },
            ),
            context_3d: Picture3DContext::Out,
            pipeline_id: self.scene.root_pipeline_id->0,
            frame_output_pipeline_id: None,
            apply_local_clip_rect: true,
            requested_raster_space: RasterSpace::Screen,
            prim_list: cut.cached,
            spatial_node_index: cut.scroll_root,
            local_clip_rect: LayoutRect::Max,
            tile_cache: Some(
                TileCache {
                    spatial_node_index: cut.scroll_root,
                    root_clip_chain_id: self.pipeline_clip_chain_stack.last(),
                },
            ),
            options: None,
            optimize: false,
        }
    }

    /// Makes the picture that holds the cached instances, where caching applies.
    pub open spec fn setup_picture_caching(self, prims: Instances) -> Self {
        if self.caches(prims) {
            self.add_picture(
                self.caching_picture(caching_cut(self.tree, prims)),
                true,
                PictureCompositeKey::Identity,
            )
        } else {
            self
        }
    }

    /// The instances of the stacking context after `setup_picture_caching`: the
    /// cached ones are replaced by their picture.
    pub open spec fn cached_primitives(self, prims: Instances) -> Instances {
        if self.caches(prims) {
            let cut = caching_cut(self.tree, prims);
            cut.preceding + seq![self.added_picture(ClipChainId::Unclipped, cut.scroll_root)]
                + cut.trailing
        } else {
            prims
        }
    }

    /// All pictures of a stacking context that is taken off the stack.
    pub open spec fn context_pictures(
        self,
        sc: Context,
        parent_is_empty: bool,
    ) -> PictureChain<'a> {
        self.add_context_picture(
            sc,
            leaf_picture(sc),
            PictureCompositeKey::Of(leaf_composite_mode(sc)),
        ).with_3d_container(sc).with_filters(sc, sc.composite_ops.filters).with_mix_blend(
            sc,
            parent_is_empty,
        )
    }

    /// Adds the outermost picture of a stacking context to what is now the top
    /// of the stack: to the 3D hierarchy that a preserve-3d parent takes part
    /// in, else to the instances of the parent, which a mix-blend mode isolates.
    /// Without a parent, the picture is the root of the scene.
    pub open spec fn attach_picture(
        self,
        instance: PrimitiveInstance,
        pic_index: PictureIndex,
        has_mix_blend: bool,
    ) -> Self {
        if self.sc_stack.len() == 0 {
            FlattenerState { root_pic_index: pic_index, ..self }
        } else if self.sc_stack.last().is_3d() {
            self.add_primitive_instance_to_3d_root(instance)
        } else {
            let parent = self.sc_stack.last();
            self.with_top(
                FlattenedStackingContext {
                    primitives: parent.primitives.push(instance),
                    blit_reason: if has_mix_blend {
                        parent.blit_reason.union(BlitReason::spec_isolate())
                    } else {
                        parent.blit_reason
                    },
                    ..parent
                },
            )
        }
    }

    /// Whether the topmost stacking context is a no-op inside the one below it.
    pub open spec fn top_is_redundant(self, node_is_identity: bool) -> bool {
        self.sc_stack.len() > 1 && self.sc_stack.last().is_redundant(
            self.sc_stack[self.sc_stack.len() - 2],
            node_is_identity,
        )
    }

    /// Ends a stacking context that is a no-op: what it drew becomes a part of
    /// its parent.
    pub open spec fn dissolve_stacking_context(self) -> Self {
        let sc = self.sc_stack.last();
        let below = FlattenerState { sc_stack: self.sc_stack.drop_last(), ..self };
        let parent = below.sc_stack.last();
        below.with_top(
            FlattenedStackingContext { primitives: parent.primitives + sc.primitives, ..parent },
        )
    }

    /// Ends a stacking context that is not a no-op: it becomes a picture, or a
    /// chain of them.
    pub open spec fn close_stacking_context(self) -> Self {
        let sc = self.sc_stack.last();
        let below = FlattenerState { sc_stack: self.sc_stack.drop_last(), ..self };
        let parent_is_empty = below.sc_stack.len() == 0
            || below.sc_stack.last().primitives.len() == 0;
        let cached = if sc.create_tile_cache {
            below.setup_picture_caching(sc.primitives)
        } else {
            below
        };
        let prims = if sc.create_tile_cache {
            below.cached_primitives(sc.primitives)
        } else {
            sc.primitives
        };
        let chain = cached.context_pictures(
            FlattenedStackingContext { primitives: prims, ..sc },
            parent_is_empty,
        );
        chain.state.attach_picture(
            PrimitiveInstance { clip_chain_id: sc.clip_chain_id, ..chain.outer.instance },
            chain.outer.pic_index,
            sc.composite_ops.mix_blend_mode is Some && !parent_is_empty,
        )
    }

    /// Ends the topmost stacking context.
    pub open spec fn pop_stacking_context(self, node_is_identity: bool) -> Self {
        if self.top_is_redundant(node_is_identity) {
            self.dissolve_stacking_context()
        } else {
            self.close_stacking_context()
        }
    }

    /// Draws a picture in another way, after it was tried to collapse pictures.
    /// The picture is not marked any more.
    pub open spec fn picture_optimized(
        self,
        pic_index: PictureIndex,
        composite_mode: Option<PictureCompositeMode>,
    ) -> Self {
        let pictures = self.prim_store.pictures;
        let i = pic_index.index as int;
        FlattenerState {
            prim_store: PrimitiveStoreContents {
                pictures: pictures.update(
                    i,
                    PicturePrimitive {
                        requested_composite_mode: composite_mode,
                        optimize: false,
                        ..pictures[i]
                    },
                ),
                ..self.prim_store
            },
            ..self
        }
    }

    /// Starts a shadow.
    pub open spec fn push_shadow(
        self,
        shadow: Shadow,
        clip_and_scroll: ScrollNodeAndClipChain,
    ) -> Self {
        FlattenerState {
            pending_shadow_items: self.pending_shadow_items.push(
                ShadowItem::Shadow(PendingShadow { shadow, clip_and_scroll }),
            ),
            ..self
        }
    }

    /// Makes the primitive that stands for a pending one in a shadow.
    pub open spec fn add_shadow_prim(
        self,
        shadow: Shadow,
        parts: PendingParts<'a>,
        key: Primitive<'a>,
        offset: LayoutVector2D,
    ) -> Self {
        self.create_primitive(shadow_info(parts.info, shadow), key, offset)
    }

    /// The instance of the primitive that `add_shadow_prim` makes.
    pub open spec fn added_shadow_prim(
        self,
        shadow: Shadow,
        parts: PendingParts<'a>,
    ) -> PrimitiveInstance {
        self.created_primitive(
            shadow_info(parts.info, shadow),
            parts.clip_and_scroll.clip_chain_id,
            parts.clip_and_scroll.spatial_node_index,
        )
    }

    /// Makes the primitives that a shadow shows: one for each pending primitive,
    /// and none for the other shadows.
    pub open spec fn add_shadow_prims(
        self,
        shadow: Shadow,
        items: Seq<ShadowItem<'a>>,
        offset: LayoutVector2D,
    ) -> Self
        decreases items.len(),
    {
        if items.len() == 0 {
            self
        } else {
            let before = self.add_shadow_prims(shadow, items.drop_last(), offset);
            match (items.last().parts(), items.last().shadow_key(shadow)) {
                (Some(parts), Some(key)) => before.add_shadow_prim(shadow, parts, key, offset),
                _ => before,
            }
        }
    }

    /// The instances of the primitives that a shadow shows.
    pub open spec fn added_shadow_prims(
        self,
        shadow: Shadow,
        items: Seq<ShadowItem<'a>>,
        offset: LayoutVector2D,
    ) -> Instances
        decreases items.len(),
    {
        if items.len() == 0 {
            Seq::empty()
        } else {
            let before = self.added_shadow_prims(shadow, items.drop_last(), offset);
            match items.last().parts() {
                Some(parts) => before.push(
                    self.add_shadow_prims(shadow, items.drop_last(), offset).added_shadow_prim(
                        shadow,
                        parts,
                    ),
                ),
                None => before,
            }
        }
    }

    /// The picture of a shadow.
    pub open spec fn shadow_picture(
        self,
        pending: PendingShadow,
        prims: Instances,
    ) -> PicturePrimitive<Instances> {
        let is_passthrough = pending.shadow.blur_radius.same(F32::zero());
        PicturePrimitive {
            requested_composite_mode: Some(shadow_composite_mode(pending.shadow)),
            context_3d: Picture3DContext::Out,
            pipeline_id: self.sc_stack.last().pipeline_id,
            frame_output_pipeline_id: None,
            apply_local_clip_rect: is_passthrough,
            requested_raster_space: if is_passthrough {
                self.sc_stack.last().requested_raster_space
            } else {
                RasterSpace::Local(F32::one())
            },
            prim_list: prims,
            spatial_node_index: pending.clip_and_scroll.spatial_node_index,
            local_clip_rect: LayoutRect::Max,
            tile_cache: None,
            options: Some(PictureOptions { inflate_if_required: pending.shadow.should_inflate }),
            optimize: false,
        }
    }

    /// Draws a shadow of the pending primitives in `items`, where there are any.
    pub open spec fn draw_shadow(
        self,
        pending: PendingShadow,
        items: Seq<ShadowItem<'a>>,
        offset: LayoutVector2D,
    ) -> Self {
        let made = self.add_shadow_prims(pending.shadow, items, offset);
        let prims = self.added_shadow_prims(pending.shadow, items, offset);
        if prims.len() == 0 {
            made
        } else {
            made.add_picture(
                made.shadow_picture(pending, prims),
                true,
                PictureCompositeKey::Of(Some(shadow_composite_mode(pending.shadow))),
            ).add_primitive_to_draw_list(
                made.added_picture(
                    pending.clip_and_scroll.clip_chain_id,
                    pending.clip_and_scroll.spatial_node_index,
                ),
            )
        }
    }

    /// Draws a pending primitive itself, where it is visible.
    pub open spec fn add_shadow_prim_to_draw_list(
        self,
        parts: PendingParts<'a>,
        offset: LayoutVector2D,
    ) -> Self {
        if parts.visible {
            self.add_prim_to_draw_list(
                parts.info,
                parts.clip_and_scroll.clip_chain_id,
                parts.clip_and_scroll,
                parts.key,
                offset,
            )
        } else {
            self
        }
    }

    /// Draws pending items in order: a shadow shows the primitives after it, a
    /// primitive is drawn as such.
    pub open spec fn draw_pending(
        self,
        items: Seq<ShadowItem<'a>>,
        offset: LayoutVector2D,
    ) -> Self
        decreases items.len(),
    {
        if items.len() == 0 {
            self
        } else {
            let rest = items.drop_first();
            match items[0] {
                ShadowItem::Shadow(pending) => self.draw_shadow(pending, rest, offset),
                item => self.add_shadow_prim_to_draw_list(item.parts()->0, offset),
            }.draw_pending(rest, offset)
        }
    }

    /// Ends all shadows.
    pub open spec fn pop_all_shadows(self, offset: LayoutVector2D) -> Self {
        FlattenerState { pending_shadow_items: Seq::empty(), ..self }.draw_pending(
            self.pending_shadow_items,
            offset,
        )
    }
}

/// The layout of a primitive, moved by the offset of a shadow.
pub open spec fn shadow_info(info: LayoutPrimitiveInfo, shadow: Shadow) -> LayoutPrimitiveInfo {
    LayoutPrimitiveInfo {
        rect: info.rect.translate(LayoutVector2D::Value(shadow.offset)),
        clip_rect: info.clip_rect.translate(LayoutVector2D::Value(shadow.offset)),
        ..info
    }
}

/// How the picture of a shadow is drawn.
pub open spec fn shadow_composite_mode(shadow: Shadow) -> PictureCompositeMode {
    PictureCompositeMode::Filter(
        SanitizedFilter { filter: FilterOp::ShadowBlur { blur_radius: shadow.blur_radius } },
    )
}

/// Adding clip items to a chain adds as many nodes, and changes nothing but the
/// clip store and the interned data.
pub proof fn lemma_build_clip_chain_keeps(
    state: FlattenerState,
    items: Seq<(LayoutPoint, ClipItemKey)>,
    spatial_node_index: SpatialNodeIndex,
    parent_clip_chain_id: ClipChainId,
)
    ensures
        ({
            let built = state.build_clip_chain(items, spatial_node_index, parent_clip_chain_id);
            &&& built == (FlattenerState {
                clip_nodes: built.clip_nodes,
                requests: built.requests,
                ..state
            })
            &&& built.clip_nodes.len() == state.clip_nodes.len() + items.len()
            &&& built.requests.len() == state.requests.len() + items.len()
        }),
    decreases items.len(),
{
    if items.len() > 0 {
        lemma_build_clip_chain_keeps(
            state.add_clip_item(
                items[0].0,
                items[0].1,
                spatial_node_index,
                parent_clip_chain_id,
            ),
            items.drop_first(),
            spatial_node_index,
            state.next_clip(),
        );
    }
}

} // verus!
