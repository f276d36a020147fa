//! Stacking contexts, while the scene is built.
use vstd::prelude::*;

use crate::ids::{ClipChainId, PictureIndex, PipelineId, RequestIndex, SpatialNodeIndex};
use crate::layout::{LayoutPoint, LayoutRect, LayoutSize};
use crate::picture::{
    BlitReason, FilterOp, InstanceList, Instances, MixBlendMode, Picture3DContext,
    PictureCompositeKey, PictureCompositeMode, PicturePrimitive, PrimitiveInstance,
    PrimitiveInstanceKind, PrimitiveStore, RasterSpace,
};
use crate::primitives::{InternRequest, InternLog, PictureKey, PrimitiveSceneData};
use crate::spatial_tree::TransformStyle;

verus! {

/// The filters and the mix-blend mode of a stacking context. `F` is a list of
/// filters.
#[derive(Debug)]
pub struct CompositeOps<F> {
    pub filters: F,
    pub mix_blend_mode: Option<MixBlendMode>,
}

impl View for CompositeOps<Vec<FilterOp>> {
    type V = CompositeOps<Seq<FilterOp>>;

    open spec fn view(&self) -> CompositeOps<Seq<FilterOp>> {
        CompositeOps { filters: self.filters@, mix_blend_mode: self.mix_blend_mode }
    }
}

impl CompositeOps<Seq<FilterOp>> {
    /// Whether there is neither a filter nor a mix-blend mode.
    pub open spec fn is_empty(self) -> bool {
        self.filters.len() == 0 && self.mix_blend_mode is None
    }

    /// Neither a filter nor a mix-blend mode.
    pub open spec fn spec_nothing() -> CompositeOps<Seq<FilterOp>> {
        CompositeOps { filters: Seq::empty(), mix_blend_mode: None }
    }
}

impl CompositeOps<Vec<FilterOp>> {
    /// The operations with the filters of a display item.
    pub fn new(filters: &Vec<FilterOp>, mix_blend_mode: Option<MixBlendMode>) -> (r: CompositeOps<
        Vec<FilterOp>,
    >)
        ensures
            r@ == (CompositeOps { filters: filters@, mix_blend_mode }),
    {
        let mut copied: Vec<FilterOp> = Vec::new();
        let mut i: usize = 0;
        while i < filters.len()
            invariant
                i <= filters@.len(),
                copied@ == filters@.subrange(0, i as int),
            decreases filters@.len() - i,
        {
            copied.push(filters[i]);
            i = i + 1;
        }
        assert(copied@ =~= filters@);
        CompositeOps { filters: copied, mix_blend_mode }
    }

    /// No operation at all.
    pub fn nothing() -> (r: CompositeOps<Vec<FilterOp>>)
        ensures
            r@ == CompositeOps::spec_nothing(),
    {
        CompositeOps { filters: Vec::new(), mix_blend_mode: None }
    }

    /// Whether there is neither a filter nor a mix-blend mode.
    pub fn is_empty(&self) -> (r: bool)
        ensures
            r == self@.is_empty(),
    {
        self.filters.len() == 0 && self.mix_blend_mode.is_none()
    }
}

/// Properties of a stacking context that are kept while the scene is built. `L`
/// is a list of primitive instances, `F` a list of filters.
#[derive(Debug)]
pub struct FlattenedStackingContext<L, F> {
    /// The primitive instances that were added to this stacking context.
    pub primitives: L,
    /// Whether this stacking context is visible from behind.
    pub is_backface_visible: bool,
    /// Whether this is to be drawn in screen space or in local space.
    pub requested_raster_space: RasterSpace,
    /// The positioning node of this stacking context.
    pub spatial_node_index: SpatialNodeIndex,
    /// The clip chain of this stacking context.
    pub clip_chain_id: ClipChainId,
    /// The pipeline, where this is to be provided to the embedder as a texture.
    pub frame_output_pipeline_id: Option<PipelineId>,
    /// The filters and the mix-blend mode of this stacking context.
    pub composite_ops: CompositeOps<F>,
    /// Reasons for which this needs a surface of its own.
    pub blit_reason: BlitReason,
    /// The pipeline that this stacking context belongs to.
    pub pipeline_id: PipelineId,
    /// The transform-style property of CSS.
    pub transform_style: TransformStyle,
    /// The relation to a preserve-3D hierarchy.
    pub context_3d: Picture3DContext<L>,
    /// Whether to make a tile cache for this stacking context.
    pub create_tile_cache: bool,
}

/// A stacking context, as it is held.
pub type HeldContext = FlattenedStackingContext<InstanceList, Vec<FilterOp>>;

/// A stacking context, as it is spoken of.
pub type Context = FlattenedStackingContext<Instances, Seq<FilterOp>>;

impl View for FlattenedStackingContext<InstanceList, Vec<FilterOp>> {
    type V = Context;

    open spec fn view(&self) -> Context {
        FlattenedStackingContext {
            primitives: self.primitives@,
            is_backface_visible: self.is_backface_visible,
            requested_raster_space: self.requested_raster_space,
            spatial_node_index: self.spatial_node_index,
            clip_chain_id: self.clip_chain_id,
            frame_output_pipeline_id: self.frame_output_pipeline_id,
            composite_ops: self.composite_ops@,
            blit_reason: self.blit_reason,
            pipeline_id: self.pipeline_id,
            transform_style: self.transform_style,
            context_3d: self.context_3d@,
            create_tile_cache: self.create_tile_cache,
        }
    }
}

/// The request that interns the data of a picture.
pub open spec fn picture_request<'a>(
    is_backface_visible: bool,
    composite_mode_key: PictureCompositeKey,
) -> InternRequest<'a> {
    InternRequest::Picture {
        key: PictureKey { is_backface_visible, prim_size: LayoutSize::Zero, composite_mode_key },
        data: PrimitiveSceneData { prim_size: LayoutSize::Zero, is_backface_visible },
    }
}

/// The instance that draws a picture, clipped by nothing but a clip chain.
pub open spec fn picture_instance(
    data_handle: RequestIndex,
    pic_index: PictureIndex,
    clip_chain_id: ClipChainId,
    spatial_node_index: SpatialNodeIndex,
) -> PrimitiveInstance {
    PrimitiveInstance {
        prim_origin: LayoutPoint::Zero,
        local_clip_rect: LayoutRect::Max,
        kind: PrimitiveInstanceKind::Picture { data_handle, pic_index },
        clip_chain_id,
        spatial_node_index,
    }
}

/// The place of the next request.
pub open spec fn next_request<'a>(requests: Seq<InternRequest<'a>>) -> RequestIndex {
    RequestIndex { index: requests.len() as usize }
}

/// Interns the data of a picture, and makes an instance of the picture.
pub fn create_prim_instance<'a>(
    pic_index: PictureIndex,
    composite_mode_key: PictureCompositeKey,
    is_backface_visible: bool,
    clip_chain_id: ClipChainId,
    spatial_node_index: SpatialNodeIndex,
    intern_log: &mut InternLog<'a>,
) -> (r: PrimitiveInstance)
    ensures
        final(intern_log)@ == old(intern_log)@.push(
            picture_request(is_backface_visible, composite_mode_key),
        ),
        r == picture_instance(
            next_request(old(intern_log)@),
            pic_index,
            clip_chain_id,
            spatial_node_index,
        ),
{
    let data_handle = intern_log.intern(
        InternRequest::Picture {
            key: PictureKey {
                is_backface_visible,
                prim_size: LayoutSize::Zero,
                composite_mode_key,
            },
            data: PrimitiveSceneData { prim_size: LayoutSize::Zero, is_backface_visible },
        },
    );
    PrimitiveInstance {
        prim_origin: LayoutPoint::Zero,
        local_clip_rect: LayoutRect::Max,
        kind: PrimitiveInstanceKind::Picture { data_handle, pic_index },
        clip_chain_id,
        spatial_node_index,
    }
}

impl FlattenedStackingContext<Instances, Seq<FilterOp>> {
    /// Whether the stacking context has a valid preserve-3d property.
    pub open spec fn is_3d(self) -> bool {
        self.transform_style == TransformStyle::Preserve3D && self.composite_ops.is_empty()
    }

    /// Whether the stacking context is a no-op inside `parent`: it takes part in
    /// no 3D context, has no filter and no clip of its own, is drawn as its
    /// parent is, keeps no tile cache, and is not transformed. A mix-blend mode
    /// does not count where nothing was drawn in the parent before.
    pub open spec fn is_redundant(self, parent: Context, node_is_identity: bool) -> bool {
        &&& self.context_3d is Out
        &&& self.composite_ops.filters.len() == 0
        &&& (self.composite_ops.mix_blend_mode is None || parent.primitives.len() == 0)
        &&& self.is_backface_visible == parent.is_backface_visible
        &&& self.requested_raster_space.same_as(parent.requested_raster_space)
        &&& self.clip_chain_id == parent.clip_chain_id
        &&& self.blit_reason.is_empty()
        &&& node_is_identity
        &&& !self.create_tile_cache
    }

    /// The picture of the flat children that were added so far.
    pub open spec fn flat_items_picture(self) -> PicturePrimitive<Instances> {
        PicturePrimitive {
            requested_composite_mode: Some(
                PictureCompositeMode::Blit(BlitReason::spec_preserve_3d()),
            ),
            context_3d: match self.context_3d {
                Picture3DContext::In { ancestor_index, .. } => Picture3DContext::In {
                    root_data: None,
                    ancestor_index,
                },
                Picture3DContext::Out => Picture3DContext::Out,
            },
            pipeline_id: self.pipeline_id,
            frame_output_pipeline_id: None,
            apply_local_clip_rect: true,
            requested_raster_space: self.requested_raster_space,
            prim_list: self.primitives,
            spatial_node_index: self.spatial_node_index,
            local_clip_rect: LayoutRect::Max,
            tile_cache: None,
            options: None,
            optimize: false,
        }
    }

    /// Whether there are flat children to cut.
    pub open spec fn has_flat_items(self) -> bool {
        self.is_3d() && self.primitives.len() > 0
    }
}

impl FlattenedStackingContext<InstanceList, Vec<FilterOp>> {
    /// Whether the stacking context has a valid preserve-3d property.
    pub fn is_3d(&self) -> (r: bool)
        ensures
            r == self@.is_3d(),
    {
        self.transform_style == TransformStyle::Preserve3D && self.composite_ops.is_empty()
    }

    /// Whether the stacking context isn't needed. `node_is_identity` says
    /// whether its positioning node leaves everything where it is.
    pub fn is_redundant(&self, parent: &HeldContext, node_is_identity: bool) -> (r: bool)
        ensures
            r == self@.is_redundant(parent@, node_is_identity),
    {
        // Any 3d context is required.
        if let Picture3DContext::In { .. } = self.context_3d {
            return false;
        }
        // If there are filters.
        if self.composite_ops.filters.len() != 0 {
            return false;
        }
        // A mix-blend mode can be skipped on the first primitive of a stacking
        // context: there is nothing yet to blend with.
        if !self.composite_ops.mix_blend_mode.is_none() && parent.primitives.len() != 0 {
            return false;
        }
        // If backface visibility is different.
        if self.is_backface_visible != parent.is_backface_visible {
            return false;
        }
        // If rasterization space is different.
        if !self.requested_raster_space.same_as(parent.requested_raster_space) {
            return false;
        }
        // If different clip chains.
        if self.clip_chain_id != parent.clip_chain_id {
            return false;
        }
        // If it needs a surface of its own.
        if !self.blit_reason.is_empty() {
            return false;
        }
        // If it represents a transform, that may affect the backface visibility
        // of children.
        if !node_is_identity {
            return false;
        }
        // If this stacking context gets picture caching, it is needed.
        if self.create_tile_cache {
            return false;
        }
        true
    }

    /// For a preserve-3d context, cuts the sequence of the immediate flat
    /// children that were recorded so far, and makes a picture of them.
    pub fn cut_flat_item_sequence<'a>(
        &mut self,
        prim_store: &mut PrimitiveStore,
        intern_log: &mut InternLog<'a>,
    ) -> (r: Option<PrimitiveInstance>)
        requires
            old(self)@.has_flat_items() ==> old(self)@.context_3d is In,
        ensures
            !old(self)@.has_flat_items() ==> {
                &&& final(self)@ == old(self)@
                &&& final(prim_store)@ == old(prim_store)@
                &&& final(intern_log)@ == old(intern_log)@
                &&& r is None
            },
            old(self)@.has_flat_items() ==> {
                &&& final(self)@ == (FlattenedStackingContext {
                    primitives: Seq::<PrimitiveInstance>::empty(),
                    ..old(self)@
                })
                &&& final(prim_store)@ == old(prim_store)@.add_picture(
                    old(self)@.flat_items_picture(),
                )
                &&& final(intern_log)@ == old(intern_log)@.push(
                    picture_request(old(self)@.is_backface_visible, PictureCompositeKey::Identity),
                )
                &&& r == Some(
                    picture_instance(
                        next_request(old(intern_log)@),
                        old(prim_store)@.next_picture(),
                        old(self)@.clip_chain_id,
                        old(self)@.spatial_node_index,
                    ),
                )
            },
    {
        if !self.is_3d() || self.primitives.len() == 0 {
            return None;
        }
        let flat_items_context_3d: Picture3DContext<InstanceList> = match &self.context_3d {
            Picture3DContext::In { ancestor_index, .. } => Picture3DContext::In {
                root_data: None,
                ancestor_index: *ancestor_index,
            },
            Picture3DContext::Out => Picture3DContext::Out,
        };
        let mut prim_list: InstanceList = Vec::new();
        std::mem::swap(&mut prim_list, &mut self.primitives);
        let pic_index = prim_store.add_picture(
            PicturePrimitive {
                requested_composite_mode: Some(
                    PictureCompositeMode::Blit(
                        BlitReason { preserve_3d: true, clip: false, isolate: false },
                    ),
                ),
                context_3d: flat_items_context_3d,
                pipeline_id: self.pipeline_id,
                frame_output_pipeline_id: None,
                apply_local_clip_rect: true,
                requested_raster_space: self.requested_raster_space,
                prim_list,
                spatial_node_index: self.spatial_node_index,
                local_clip_rect: LayoutRect::Max,
                tile_cache: None,
                options: None,
                optimize: false,
            },
        );
        Some(
            create_prim_instance(
                pic_index,
                PictureCompositeKey::Identity,
                self.is_backface_visible,
                self.clip_chain_id,
                self.spatial_node_index,
                intern_log,
            ),
        )
    }
}

} // verus!
