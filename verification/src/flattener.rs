//! The flattener, and the operations by which it grows a scene: clips,
//! positioning nodes, primitives.
use std::collections::{HashMap, HashSet, VecDeque};

use vstd::prelude::*;
use vstd::std_specs::convert::FromSpec;

use crate::clip_store::{ClipItemKey, ClipMode, ClipRegion, ClipStore};
use crate::display_list::{Scene, SpaceAndClipInfo};
use crate::hit_test::{push_hit_item, runs_of, HeldRun, HitTestingItem};
use crate::ids::{
    ClipChainId, ClipId, ExternalScrollId, PictureIndex, PipelineId, ScrollNodeAndClipChain,
    SpatialId, SpatialNodeIndex,
};
use crate::layout::{LayoutPoint, LayoutRect, LayoutSize, LayoutVector2D, SizeF};
use crate::mapper::NodeIdToIndexMapper;
use crate::picture::{PrimitiveInstance, PrimitiveStore};
use crate::primitives::{
    AsInstanceKind, BaseFontInstance, InternRequest, Internable, InternLog, IsVisible,
    LayoutPrimitiveInfo, PrimitiveSceneData,
};
use crate::shadows::{PendingPrimitive, ShadowItem};
use crate::spatial_tree::{
    scroll_root, spatial_nodes_ordered, ClipScrollTree, ReferenceFrameInfo, ReferenceFrameKind,
    ScrollFrameInfo, ScrollFrameKind, ScrollSensitivity, SourceTransform, SpatialNode,
    SpatialNodeType, StickyFrameInfo, TransformStyle,
};
use crate::stacking_context::{Context, HeldContext};
use crate::state::{region_items, FlattenerState, FrameBuilderConfig};

verus! {

/// The stacking contexts of a stack, as they are spoken of.
pub open spec fn contexts_of(stack: Seq<HeldContext>) -> Seq<Context> {
    Seq::new(stack.len(), |i: int| stack[i]@)
}

/// A structure that turns a display list into a form from which frames can be
/// built.
pub struct DisplayListFlattener<'a> {
    /// The scene that is being flattened.
    pub scene: &'a Scene,
    /// The positioning tree that is being built.
    pub clip_scroll_tree: ClipScrollTree,
    /// All font instances, by key.
    pub font_instances: &'a HashMap<u64, BaseFontInstance>,
    /// The pipelines that the embedder wants as textures, by key.
    pub output_pipelines: &'a HashSet<u64>,
    /// The indices that the ids of the display list stand for.
    pub id_to_index_mapper: NodeIdToIndexMapper,
    /// A stack of stacking context properties.
    pub sc_stack: Vec<HeldContext>,
    /// The shadows that are active, and what was added under them.
    pub pending_shadow_items: VecDeque<ShadowItem<'a>>,
    /// The root clip chains of the pipelines that are being flattened.
    pub pipeline_clip_chain_stack: Vec<ClipChainId>,
    /// The store of primitives.
    pub prim_store: PrimitiveStore,
    /// All areas that can be hit.
    pub hit_testing_runs: Vec<HeldRun>,
    /// The store of clip chains.
    pub clip_store: ClipStore,
    /// How frames are to be built.
    pub config: FrameBuilderConfig,
    /// The data to be interned, which is shared across display lists.
    pub intern_log: InternLog<'a>,
    /// The picture at the root of the scene.
    pub root_pic_index: PictureIndex,
}

impl<'a> View for DisplayListFlattener<'a> {
    type V = FlattenerState<'a>;

    open spec fn view(&self) -> FlattenerState<'a> {
        FlattenerState {
            scene: self.scene,
            font_instances: self.font_instances,
            output_pipelines: self.output_pipelines,
            config: self.config,
            tree: self.clip_scroll_tree@,
            mapping: self.id_to_index_mapper@,
            sc_stack: contexts_of(self.sc_stack@),
            pending_shadow_items: self.pending_shadow_items@,
            pipeline_clip_chain_stack: self.pipeline_clip_chain_stack@,
            prim_store: self.prim_store@,
            hit_testing_runs: runs_of(self.hit_testing_runs@),
            clip_nodes: self.clip_store@,
            requests: self.intern_log@,
            root_pic_index: self.root_pic_index,
        }
    }
}

/// The stores of a flattener are vectors, so their positions fit indices.
pub proof fn lemma_fits(flattener: &DisplayListFlattener)
    ensures
        flattener@.fits(),
{
    assert(flattener.clip_scroll_tree.spatial_nodes.len() <= usize::MAX);
    assert(flattener.clip_store.clip_chain_nodes.len() <= usize::MAX);
    assert(flattener.intern_log.requests.len() <= usize::MAX);
    assert(flattener.prim_store.pictures.len() <= usize::MAX);
    assert(flattener.prim_store.records.len() <= usize::MAX);
}

/// The shapes of a region as clip items with their places.
fn list_region_items(region: ClipRegion) -> (r: Vec<(LayoutPoint, ClipItemKey)>)
    ensures
        r@ == region_items(region),
{
    let mut items: Vec<(LayoutPoint, ClipItemKey)> = Vec::new();
    items.push(
        (
            region.main.copy().origin(),
            ClipItemKey::Rectangle(region.main.copy().size(), ClipMode::Clip),
        ),
    );
    if let Some(mask) = &region.image_mask {
        items.push((mask.rect.copy().origin(), ClipItemKey::ImageMask(mask.copy())));
    }
    let ghost before = items@;
    if let Some((clips, offset)) = &region.complex_clips {
        let mut i: usize = 0;
        while i < clips.len()
            invariant
                region.complex_clips == Some((*clips, *offset)),
                i <= clips@.len(),
                items@ == before + region_items(region).subrange(
                    before.len() as int,
                    before.len() + i,
                ),
                before.len() + clips@.len() == region_items(region).len(),
                forall|j: int|
                    0 <= j < clips@.len() ==> #[trigger] region_items(region)[before.len() + j]
                        == crate::state::complex_clip_item(clips@[j], *offset),
            decreases clips@.len() - i,
        {
            let clip = clips[i];
            let rect = LayoutRect::Value(clip.rect).translate(offset.copy());
            let size = rect.copy().size();
            items.push((rect.origin(), ClipItemKey::RoundedRect(size, clip.radii, clip.mode)));
            i = i + 1;
            assert(items@ =~= before + region_items(region).subrange(
                before.len() as int,
                before.len() + i,
            ));
        }
    }
    assert(items@ =~= region_items(region));
    items
}

impl<'a> DisplayListFlattener<'a> {
    /// Finds the positioning node that is the scroll root of a given one.
    pub fn find_scroll_root(&self, spatial_node_index: SpatialNodeIndex) -> (r: SpatialNodeIndex)
        requires
            spatial_nodes_ordered(self@.tree),
            spatial_node_index.index < self@.tree.len(),
        ensures
            r == scroll_root(self@.tree, spatial_node_index),
    {
        self.clip_scroll_tree.find_scroll_root(spatial_node_index)
    }

    /// Given a list of clip items, a positioning node and a parent clip chain,
    /// makes a new clip chain. If the list is empty, this is the parent clip
    /// chain itself.
    pub fn build_clip_chain(
        &mut self,
        clip_items: Vec<(LayoutPoint, ClipItemKey)>,
        spatial_node_index: SpatialNodeIndex,
        parent_clip_chain_id: ClipChainId,
    ) -> (r: ClipChainId)
        ensures
            final(self)@ == old(self)@.build_clip_chain(
                clip_items@,
                spatial_node_index,
                parent_clip_chain_id,
            ),
            r == old(self)@.built_clip_chain(clip_items@.len(), parent_clip_chain_id),
    {
        let mut clip_chain_id: ClipChainId = parent_clip_chain_id;
        let ghost items = clip_items@;
        assert(items.subrange(0, items.len() as int) =~= items);
        for entry in it: clip_items.into_iter()
            invariant
                it.seq() == items,
                self@.build_clip_chain(
                    items.subrange(it.index() as int, items.len() as int),
                    spatial_node_index,
                    clip_chain_id,
                ) == old(self)@.build_clip_chain(items, spatial_node_index, parent_clip_chain_id),
                self@.built_clip_chain(
                    (items.len() - it.index()) as nat,
                    clip_chain_id,
                ) == old(self)@.built_clip_chain(items.len(), parent_clip_chain_id),
        {
            let ghost rest = items.subrange(it.index() as int, items.len() as int);
            assert(rest.drop_first() =~= items.subrange(it.index() + 1, items.len() as int));
            assert(rest[0] == entry);
            let (local_pos, item) = entry;
            // Intern this clip item, and store its request in the clip chain
            // node.
            let handle = self.intern_log.intern(InternRequest::Clip(item));
            clip_chain_id =
            self.clip_store.add_clip_chain_node(
                handle,
                local_pos,
                spatial_node_index,
                clip_chain_id,
            );
        }
        clip_chain_id
    }

    /// Adds the clip of a display item: a clip chain of its shapes, under the
    /// clip chain that the item itself is clipped by.
    pub fn add_clip_node(
        &mut self,
        new_node_id: ClipId,
        space_and_clip: &SpaceAndClipInfo,
        clip_region: ClipRegion,
    ) -> (r: ClipChainId)
        requires
            old(self)@.mapping.clips.contains_key(space_and_clip.clip_id),
            old(self)@.mapping.spatial.contains_key(space_and_clip.spatial_id),
        ensures
            final(self)@ == old(self)@.add_clip_node(new_node_id, *space_and_clip, clip_region),
            r == old(self)@.built_clip_chain(
                region_items(clip_region).len(),
                old(self)@.mapping.clips[space_and_clip.clip_id].id,
            ),
    {
        // Map from the parent clip to its clip chain.
        let parent_clip_chain_index = self.id_to_index_mapper.get_clip_chain_id(
            space_and_clip.clip_id,
        );
        // Map from the positioning node to its place in the tree.
        let spatial_node = self.id_to_index_mapper.get_spatial_node_index(
            space_and_clip.spatial_id,
        );
        let clip_items = list_region_items(clip_region);
        let clip_count: usize = clip_items.len();
        let clip_chain_id = self.build_clip_chain(
            clip_items,
            spatial_node,
            parent_clip_chain_index,
        );
        self.id_to_index_mapper.add_clip_chain(new_node_id, clip_chain_id, clip_count);
        clip_chain_id
    }

    /// Adds a positioning node, and maps its id to it.
    fn add_spatial_node(&mut self, id: SpatialId, node: SpatialNode) -> (r: SpatialNodeIndex)
        ensures
            final(self)@ == old(self)@.add_spatial_node(id, node),
            r == old(self)@.next_node(),
            old(self)@.tree.len() <= usize::MAX,
    {
        let index = self.clip_scroll_tree.add_spatial_node(node);
        self.id_to_index_mapper.map_spatial_node(id, index);
        index
    }

    /// Adds a reference frame, and returns its place in the tree.
    pub fn push_reference_frame(
        &mut self,
        reference_frame_id: SpatialId,
        parent_index: Option<SpatialNodeIndex>,
        pipeline_id: PipelineId,
        transform_style: TransformStyle,
        source_transform: SourceTransform,
        kind: ReferenceFrameKind,
        origin_in_parent_reference_frame: LayoutVector2D,
    ) -> (r: SpatialNodeIndex)
        ensures
            final(self)@ == old(self)@.push_reference_frame(
                reference_frame_id,
                parent_index,
                pipeline_id,
                transform_style,
                source_transform,
                kind,
                origin_in_parent_reference_frame,
            ),
            r == old(self)@.next_node(),
    {
        self.add_spatial_node(
            reference_frame_id,
            SpatialNode {
                parent: parent_index,
                node_type: SpatialNodeType::ReferenceFrame(
                    ReferenceFrameInfo {
                        transform_style,
                        source_transform,
                        kind,
                        origin_in_parent_reference_frame,
                    },
                ),
                pipeline_id,
            },
        )
    }

    /// Adds a scroll frame, and returns its place in the tree.
    pub fn add_scroll_frame(
        &mut self,
        new_node_id: SpatialId,
        parent_node_index: SpatialNodeIndex,
        external_id: Option<ExternalScrollId>,
        pipeline_id: PipelineId,
        frame_rect: LayoutRect,
        content_size: &SizeF,
        scroll_sensitivity: ScrollSensitivity,
        frame_kind: ScrollFrameKind,
    ) -> (r: SpatialNodeIndex)
        ensures
            final(self)@ == old(self)@.add_scroll_frame(
                new_node_id,
                parent_node_index,
                external_id,
                pipeline_id,
                frame_rect,
                *content_size,
                scroll_sensitivity,
                frame_kind,
            ),
            r == old(self)@.next_node(),
    {
        self.add_spatial_node(
            new_node_id,
            SpatialNode {
                parent: Some(parent_node_index),
                node_type: SpatialNodeType::ScrollFrame(
                    ScrollFrameInfo {
                        external_id,
                        frame_rect,
                        content_size: *content_size,
                        scroll_sensitivity,
                        frame_kind,
                    },
                ),
                pipeline_id,
            },
        )
    }

    /// Adds a sticky frame, and returns its place in the tree.
    pub fn add_sticky_frame(
        &mut self,
        id: SpatialId,
        parent_node_index: SpatialNodeIndex,
        info: StickyFrameInfo,
    ) -> (r: SpatialNodeIndex)
        ensures
            final(self)@ == old(self)@.add_sticky_frame(id, parent_node_index, info),
            r == old(self)@.next_node(),
    {
        self.add_spatial_node(
            id,
            SpatialNode {
                parent: Some(parent_node_index),
                node_type: SpatialNodeType::StickyFrame(info),
                pipeline_id: id.pipeline_id,
            },
        )
    }

    /// Adds the reference frame and the scroll frame at the root of a pipeline.
    pub fn add_pipeline_frames(
        &mut self,
        pipeline_id: PipelineId,
        parent_index: Option<SpatialNodeIndex>,
        origin: LayoutVector2D,
        viewport_size: &SizeF,
        content_size: &SizeF,
    )
        ensures
            final(self)@ == old(self)@.add_pipeline_frames(
                pipeline_id,
                parent_index,
                origin,
                *viewport_size,
                *content_size,
            ),
    {
        let spatial_node_index = self.push_reference_frame(
            SpatialId::root_reference_frame(pipeline_id),
            parent_index,
            pipeline_id,
            TransformStyle::Flat,
            SourceTransform::Identity,
            ReferenceFrameKind::Transform,
            origin,
        );
        self.add_scroll_frame(
            SpatialId::root_scroll_node(pipeline_id),
            spatial_node_index,
            Some(ExternalScrollId { id: 0, pipeline_id }),
            pipeline_id,
            LayoutRect::New(
                Box::new(LayoutPoint::Zero),
                Box::new(LayoutSize::Value(*viewport_size)),
            ),
            content_size,
            ScrollSensitivity::ScriptAndInputEvents,
            ScrollFrameKind::PipelineRoot,
        );
    }

    /// Adds the root of the whole scene: a clip that clips nothing, and the
    /// frames of the root pipeline.
    pub fn push_root(
        &mut self,
        pipeline_id: PipelineId,
        viewport_size: &SizeF,
        content_size: &SizeF,
    )
        ensures
            final(self)@ == old(self)@.push_root(pipeline_id, *viewport_size, *content_size),
    {
        self.id_to_index_mapper.add_clip_chain(
            ClipId::root(pipeline_id),
            ClipChainId::Unclipped,
            0,
        );
        self.add_pipeline_frames(
            pipeline_id,
            None,
            LayoutVector2D::Zero,
            viewport_size,
            content_size,
        );
    }

    /// Makes a primitive, and adds it to the store of primitives. This does not
    /// add the primitive to the draw list.
    pub fn create_primitive<P: Internable<'a>>(
        &mut self,
        info: &LayoutPrimitiveInfo,
        clip_chain_id: ClipChainId,
        spatial_node_index: SpatialNodeIndex,
        prim: P,
        reference_frame_relative_offset: &LayoutVector2D,
    ) -> (r: PrimitiveInstance)
        ensures
            final(self)@ == old(self)@.create_primitive(
                *info,
                prim.key(),
                *reference_frame_relative_offset,
            ),
            r == old(self)@.created_primitive(*info, clip_chain_id, spatial_node_index),
    {
        let prim_key = prim.into_key();
        let prim_data_handle = self.intern_log.next_request();
        let instance_kind = prim_key.as_instance_kind(
            prim_data_handle,
            &mut self.prim_store,
            reference_frame_relative_offset.copy(),
        );
        self.intern_log.intern(
            InternRequest::Primitive {
                prim: prim_key,
                info: info.copy(),
                data: PrimitiveSceneData {
                    prim_size: info.rect.copy().size(),
                    is_backface_visible: info.is_backface_visible,
                },
            },
        );
        PrimitiveInstance {
            prim_origin: info.rect.copy().origin(),
            local_clip_rect: info.clip_rect.copy(),
            kind: instance_kind,
            clip_chain_id,
            spatial_node_index,
        }
    }

    /// Makes the area of a primitive one that can be hit, where it has a tag.
    pub fn add_primitive_to_hit_testing_list(
        &mut self,
        info: &LayoutPrimitiveInfo,
        clip_and_scroll: ScrollNodeAndClipChain,
    )
        ensures
            final(self)@ == old(self)@.add_primitive_to_hit_testing_list(*info, clip_and_scroll),
    {
        let tag = match info.tag {
            Some(tag) => tag,
            None => {
                return;
            },
        };
        let new_item = HitTestingItem::new(tag, info);
        push_hit_item(&mut self.hit_testing_runs, new_item, clip_and_scroll);
    }

    /// Adds an already made instance to the topmost stacking context.
    pub fn add_primitive_to_draw_list(&mut self, prim_instance: PrimitiveInstance)
        requires
            old(self)@.sc_stack.len() > 0,
        ensures
            final(self)@ == old(self)@.add_primitive_to_draw_list(prim_instance),
    {
        let mut stacking_context = self.sc_stack.pop().unwrap();
        stacking_context.primitives.push(prim_instance);
        self.sc_stack.push(stacking_context);
        assert(contexts_of(self.sc_stack@) =~= old(self)@.add_primitive_to_draw_list(
            prim_instance,
        ).sc_stack);
    }

    /// Makes a primitive, lets it be hit, and draws it.
    pub fn add_prim_to_draw_list<P: Internable<'a>>(
        &mut self,
        info: &LayoutPrimitiveInfo,
        clip_chain_id: ClipChainId,
        clip_and_scroll: ScrollNodeAndClipChain,
        prim: P,
        reference_frame_relative_offset: &LayoutVector2D,
    )
        requires
            old(self)@.sc_stack.len() > 0,
        ensures
            final(self)@ == old(self)@.add_prim_to_draw_list(
                *info,
                clip_chain_id,
                clip_and_scroll,
                prim.key(),
                *reference_frame_relative_offset,
            ),
    {
        let prim_instance = self.create_primitive(
            info,
            clip_chain_id,
            clip_and_scroll.spatial_node_index,
            prim,
            reference_frame_relative_offset,
        );
        self.add_primitive_to_hit_testing_list(info, clip_and_scroll);
        self.add_primitive_to_draw_list(prim_instance);
    }

    /// Adds a primitive that casts no shadow, where it is visible.
    pub fn add_nonshadowable_primitive<P: Internable<'a> + IsVisible>(
        &mut self,
        clip_and_scroll: ScrollNodeAndClipChain,
        info: &LayoutPrimitiveInfo,
        clip_items: Vec<(LayoutPoint, ClipItemKey)>,
        prim: P,
        reference_frame_relative_offset: &LayoutVector2D,
    )
        requires
            prim.visible() ==> old(self)@.sc_stack.len() > 0,
        ensures
            final(self)@ == old(self)@.add_nonshadowable_primitive(
                clip_and_scroll,
                *info,
                clip_items@,
                prim.key(),
                prim.visible(),
                *reference_frame_relative_offset,
            ),
    {
        if prim.is_visible() {
            proof {
                crate::state::lemma_build_clip_chain_keeps(
                    self@,
                    clip_items@,
                    clip_and_scroll.spatial_node_index,
                    clip_and_scroll.clip_chain_id,
                );
            }
            let clip_chain_id = self.build_clip_chain(
                clip_items,
                clip_and_scroll.spatial_node_index,
                clip_and_scroll.clip_chain_id,
            );
            self.add_prim_to_draw_list(
                info,
                clip_chain_id,
                clip_and_scroll,
                prim,
                reference_frame_relative_offset,
            );
        }
    }

    /// Adds a primitive. Where no shadow is active, it is added to the topmost
    /// stacking context at once; else it waits until all shadows are popped.
    pub fn add_primitive<P: Internable<'a> + IsVisible>(
        &mut self,
        clip_and_scroll: ScrollNodeAndClipChain,
        info: &LayoutPrimitiveInfo,
        clip_items: Vec<(LayoutPoint, ClipItemKey)>,
        prim: P,
        reference_frame_relative_offset: &LayoutVector2D,
    ) where ShadowItem<'a>: From<PendingPrimitive<P>>
        requires
            <ShadowItem<'a> as FromSpec<PendingPrimitive<P>>>::obeys_from_spec(),
            old(self)@.can_take(prim.visible()),
        ensures
            final(self)@ == old(self)@.add_primitive(
                clip_and_scroll,
                *info,
                clip_items@,
                prim.key(),
                prim.visible(),
                <ShadowItem<'a> as FromSpec<PendingPrimitive<P>>>::from_spec(
                    PendingPrimitive { clip_and_scroll, info: *info, prim },
                ),
                *reference_frame_relative_offset,
            ),
    {
        if self.pending_shadow_items.len() == 0 {
            self.add_nonshadowable_primitive(
                clip_and_scroll,
                info,
                clip_items,
                prim,
                reference_frame_relative_offset,
            );
        } else {
            // A shadow is active. Store this as a pending primitive.
            self.pending_shadow_items.push_back(
                ShadowItem::from(PendingPrimitive { clip_and_scroll, info: info.copy(), prim }),
            );
        }
    }
}

} // verus!
