//! How stacking contexts begin and end.
use vstd::prelude::*;

use crate::flattener::{contexts_of, DisplayListFlattener};
use crate::ids::{
    root_spatial_node_index, ClipChainId, PipelineId, SpatialNodeIndex,
};
use crate::layout::LayoutRect;
use crate::picture::{
    BlitReason, FilterOp, InstanceList, Picture3DContext, PictureCompositeKey,
    PictureCompositeMode, PicturePrimitive, PrimitiveInstance, RasterSpace, SanitizedFilter,
};
use crate::spatial_tree::TransformStyle;
use crate::stacking_context::{
    create_prim_instance, CompositeOps, Context, FlattenedStackingContext, HeldContext,
};
use crate::state::{
    containing_block, context_picture, leaf_composite_mode, leaf_picture, meets_flat_context,
    root_3d_place, FlattenerState, OutermostPicture, PictureChain,
};

verus! {

impl<'a> FlattenerState<'a> {
    /// Whether the topmost stacking context can be ended. One that is a no-op
    /// always can. Any other leaves no shadow unpopped, can be cached where it
    /// is to be, and, where its parent is preserve-3d, finds the root of the 3D
    /// hierarchy.
    pub open spec fn can_pop(self, node_is_identity: bool) -> bool {
        &&& self.sc_stack.len() > 0
        &&& !self.top_is_redundant(node_is_identity) ==> {
            let sc = self.sc_stack.last();
            let below = self.sc_stack.drop_last();
            &&& self.pending_shadow_items.len() == 0
            &&& sc.create_tile_cache ==> self.can_set_up_caching(sc.primitives)
            &&& below.len() > 0 && below.last().is_3d() ==> !meets_flat_context(below)
        }
    }

    /// This state, with the outermost picture that was made in it.
    pub open spec fn chain(self, outer: OutermostPicture) -> PictureChain<'a> {
        PictureChain { state: self, outer }
    }
}

impl<'a> DisplayListFlattener<'a> {
    /// Adds an instance to the list of the 3D hierarchy that the topmost
    /// stacking context takes part in.
    pub fn add_primitive_instance_to_3d_root(&mut self, instance: PrimitiveInstance)
        requires
            !meets_flat_context(old(self)@.sc_stack),
        ensures
            final(self)@ == old(self)@.add_primitive_instance_to_3d_root(instance),
    {
        let ghost stack = self@.sc_stack;
        let mut i: usize = self.sc_stack.len();
        assert(stack.take(i as int) =~= stack);
        while i > 0
            invariant
                self@ == old(self)@,
                stack == old(self)@.sc_stack,
                i <= self.sc_stack@.len(),
                !meets_flat_context(stack.take(i as int)),
                root_3d_place(stack) == (if root_3d_place(stack.take(i as int)) < i {
                    root_3d_place(stack.take(i as int))
                } else {
                    stack.len() as int
                }),
            decreases i,
        {
            let ghost upper = stack.take(i as int);
            i = i - 1;
            assert(upper.drop_last() =~= stack.take(i as int));
            assert(upper.last() == self.sc_stack@[i as int]@);
            if let Picture3DContext::In { root_data: Some(prims), .. } =
                &mut self.sc_stack[i].context_3d {
                prims.push(instance);
                assert(contexts_of(self.sc_stack@) =~= old(
                    self,
                )@.add_primitive_instance_to_3d_root(instance).sc_stack);
                return;
            }
        }
    }

    /// Makes a picture of the flat children of the topmost stacking context, so
    /// that the order between them and what comes next is kept.
    fn cut_flat_items(&mut self)
        requires
            old(self)@.sc_stack.len() > 0 && old(self)@.sc_stack.last().has_flat_items()
                ==> !meets_flat_context(old(self)@.sc_stack),
        ensures
            final(self)@ == old(self)@.cut_flat_items(),
    {
        if self.sc_stack.len() == 0 {
            return;
        }
        let mut sc = self.sc_stack.pop().unwrap();
        let extra_instance = sc.cut_flat_item_sequence(&mut self.prim_store, &mut self.intern_log);
        self.sc_stack.push(sc);
        assert(self@.sc_stack.drop_last() =~= old(self)@.sc_stack.drop_last());
        if let Some(instance) = extra_instance {
            assert(self@.sc_stack =~= old(self)@.with_top(sc@).sc_stack);
            self.add_primitive_instance_to_3d_root(instance);
        } else {
            assert(self@.sc_stack =~= old(self)@.sc_stack);
        }
    }

    /// The positioning node of the nearest stacking context that is not
    /// preserve-3d.
    fn find_containing_block(&self) -> (r: SpatialNodeIndex)
        ensures
            r == containing_block(self@.sc_stack),
    {
        let ghost stack = self@.sc_stack;
        let mut i: usize = self.sc_stack.len();
        assert(stack.take(i as int) =~= stack);
        while i > 0
            invariant
                stack == self@.sc_stack,
                i <= self.sc_stack@.len(),
                containing_block(stack) == containing_block(stack.take(i as int)),
            decreases i,
        {
            let ghost upper = stack.take(i as int);
            i = i - 1;
            assert(upper.drop_last() =~= stack.take(i as int));
            assert(upper.last() == self.sc_stack@[i as int]@);
            if !self.sc_stack[i].is_3d() {
                return self.sc_stack[i].spatial_node_index;
            }
        }
        root_spatial_node_index()
    }

    /// Starts a stacking context.
    pub fn push_stacking_context(
        &mut self,
        pipeline_id: PipelineId,
        composite_ops: CompositeOps<Vec<FilterOp>>,
        transform_style: TransformStyle,
        is_backface_visible: bool,
        create_tile_cache: bool,
        spatial_node_index: SpatialNodeIndex,
        clip_chain_id: ClipChainId,
        requested_raster_space: RasterSpace,
    )
        requires
            old(self)@.sc_stack.len() > 0 && old(self)@.sc_stack.last().has_flat_items()
                ==> !meets_flat_context(old(self)@.sc_stack),
        ensures
            final(self)@ == old(self)@.push_stacking_context(
                pipeline_id,
                composite_ops@,
                transform_style,
                is_backface_visible,
                create_tile_cache,
                spatial_node_index,
                clip_chain_id,
                requested_raster_space,
            ),
    {
        broadcast use vstd::std_specs::hash::group_hash_axioms;

        let ghost context = self@.new_stacking_context(
            pipeline_id,
            composite_ops@,
            transform_style,
            is_backface_visible,
            create_tile_cache,
            spatial_node_index,
            clip_chain_id,
            requested_raster_space,
        );
        let count: usize = self.sc_stack.len();

        // Check if this stacking context is the root of a pipeline, and the
        // embedder has asked for that as a texture.
        let is_pipeline_root = count == 0 || self.sc_stack[count - 1].pipeline_id != pipeline_id;
        let frame_output_pipeline_id = if is_pipeline_root && self.output_pipelines.contains(
            &pipeline_id.key(),
        ) {
            Some(pipeline_id)
        } else {
            None
        };

        // The transform-style of the parent decides if this *might* have to be
        // drawn on an intermediate surface, to split planes.
        let parent_is_3d = count > 0 && self.sc_stack[count - 1].is_3d();

        // If this is preserve-3d *or* the parent is, then this stacking context
        // takes part in a 3D rendering context.
        let participating_in_3d_context = composite_ops.is_empty() && (parent_is_3d
            || transform_style == TransformStyle::Preserve3D);
        let context_3d: Picture3DContext<InstanceList> = if participating_in_3d_context {
            Picture3DContext::In {
                root_data: if parent_is_3d {
                    None
                } else {
                    Some(Vec::new())
                },
                ancestor_index: self.find_containing_block(),
            }
        } else {
            Picture3DContext::Out
        };

        // Force an intermediate surface if the stacking context has a clip.
        let blit_reason = if clip_chain_id == ClipChainId::Unclipped {
            BlitReason::empty()
        } else {
            BlitReason { preserve_3d: false, clip: true, isolate: false }
        };

        self.cut_flat_items();
        let sc = FlattenedStackingContext {
            primitives: Vec::new(),
            is_backface_visible,
            requested_raster_space,
            spatial_node_index,
            clip_chain_id,
            frame_output_pipeline_id,
            composite_ops,
            blit_reason,
            pipeline_id,
            transform_style,
            context_3d,
            create_tile_cache,
        };
        assert(sc@.context_3d == context.context_3d);
        assert(sc@ == context);
        let ghost before = self.sc_stack@;
        self.sc_stack.push(sc);
        assert(contexts_of(self.sc_stack@) =~= contexts_of(before).push(context));
    }

    /// Makes a picture that stands for a stacking context, or for a part of it,
    /// with an unclipped instance of it.
    fn add_context_picture(
        &mut self,
        sc: &HeldContext,
        requested_composite_mode: Option<PictureCompositeMode>,
        context_3d: Picture3DContext<InstanceList>,
        frame_output_pipeline_id: Option<PipelineId>,
        prim_list: InstanceList,
        optimize: bool,
        composite_mode_key: PictureCompositeKey,
    ) -> (r: OutermostPicture)
        ensures
            final(self)@.chain(r) == old(self)@.add_context_picture(
                sc@,
                context_picture(
                    sc@,
                    requested_composite_mode,
                    context_3d@,
                    frame_output_pipeline_id,
                    prim_list@,
                    optimize,
                ),
                composite_mode_key,
            ),
    {
        let pic_index = self.prim_store.add_picture(
            PicturePrimitive {
                requested_composite_mode,
                context_3d,
                pipeline_id: sc.pipeline_id,
                frame_output_pipeline_id,
                apply_local_clip_rect: true,
                requested_raster_space: sc.requested_raster_space,
                prim_list,
                spatial_node_index: sc.spatial_node_index,
                local_clip_rect: LayoutRect::Max,
                tile_cache: None,
                options: None,
                optimize,
            },
        );
        let instance = create_prim_instance(
            pic_index,
            composite_mode_key,
            sc.is_backface_visible,
            ClipChainId::Unclipped,
            sc.spatial_node_index,
            &mut self.intern_log,
        );
        OutermostPicture { pic_index, instance }
    }

    /// Makes a picture around the outermost picture of a stacking context.
    fn wrap_picture(
        &mut self,
        sc: &HeldContext,
        outer: OutermostPicture,
        mode: PictureCompositeMode,
        optimize: bool,
    ) -> (r: OutermostPicture)
        ensures
            final(self)@.chain(r) == old(self)@.chain(outer).wrapped(sc@, mode, optimize),
    {
        let mut prims: InstanceList = Vec::new();
        prims.push(outer.instance);
        assert(prims@ =~= seq![outer.instance]);
        self.add_context_picture(
            sc,
            Some(mode),
            Picture3DContext::Out,
            None,
            prims,
            optimize,
            PictureCompositeKey::Of(Some(mode)),
        )
    }

    /// Makes the innermost picture of a stacking context, for what was added to
    /// it last.
    fn add_leaf_picture(&mut self, sc: &HeldContext, prims: InstanceList) -> (r: OutermostPicture)
        ensures
            final(self)@.chain(r) == old(self)@.add_context_picture(
                sc@,
                leaf_picture(FlattenedStackingContext { primitives: prims@, ..sc@ }),
                PictureCompositeKey::Of(leaf_composite_mode(sc@)),
            ),
    {
        match &sc.context_3d {
            // A picture in a 3D context is drawn to an intermediate surface, and
            // its plane is split.
            Picture3DContext::In { ancestor_index, .. } => {
                let mode = Some(
                    PictureCompositeMode::Blit(
                        BlitReason { preserve_3d: true, clip: false, isolate: false }.union(
                            sc.blit_reason,
                        ),
                    ),
                );
                self.add_context_picture(
                    sc,
                    mode,
                    Picture3DContext::In { root_data: None, ancestor_index: *ancestor_index },
                    None,
                    prims,
                    false,
                    PictureCompositeKey::Of(mode),
                )
            },
            Picture3DContext::Out => {
                let mode = if sc.blit_reason.is_empty() {
                    // By default, this picture is collapsed into the owning
                    // target.
                    None
                } else {
                    // Add a dummy composite filter if it has to be isolated.
                    Some(PictureCompositeMode::Blit(sc.blit_reason))
                };
                self.add_context_picture(
                    sc,
                    mode,
                    Picture3DContext::Out,
                    sc.frame_output_pipeline_id,
                    prims,
                    false,
                    PictureCompositeKey::Of(mode),
                )
            },
        }
    }

    /// Makes all pictures of a stacking context that is taken off the stack,
    /// and returns the outermost.
    fn add_context_pictures(
        &mut self,
        sc: HeldContext,
        parent_is_empty: bool,
    ) -> (r: OutermostPicture)
        ensures
            final(self)@.chain(r) == old(self)@.context_pictures(sc@, parent_is_empty),
    {
        let ghost context = sc@;
        let mut sc = sc;
        let mut prims: InstanceList = Vec::new();
        std::mem::swap(&mut prims, &mut sc.primitives);
        let mut outer = self.add_leaf_picture(&sc, prims);

        // If this establishes a 3D context, `outer` is a picture of all the
        // *trailing* immediate children. It is added to what was collected for
        // the hierarchy, and a container picture is made of them.
        let mut context_3d: Picture3DContext<InstanceList> = Picture3DContext::Out;
        std::mem::swap(&mut context_3d, &mut sc.context_3d);
        if let Picture3DContext::In { root_data: Some(collected), ancestor_index } = context_3d {
            let mut collected = collected;
            collected.push(outer.instance);
            outer =
            self.add_context_picture(
                &sc,
                None,
                Picture3DContext::In { root_data: Some(Vec::new()), ancestor_index },
                sc.frame_output_pipeline_id,
                collected,
                false,
                PictureCompositeKey::Identity,
            );
        }
        let ghost inner = self@.chain(outer);
        assert(inner == old(self)@.add_context_picture(
            context,
            leaf_picture(context),
            PictureCompositeKey::Of(leaf_composite_mode(context)),
        ).with_3d_container(context));

        // For each filter, make a picture with that composite mode.
        let ghost filters = context.composite_ops.filters;
        assert(filters.subrange(0, filters.len() as int) =~= filters);
        let mut i: usize = 0;
        while i < sc.composite_ops.filters.len()
            invariant
                filters == sc.composite_ops.filters@,
                i <= filters.len(),
                context.pipeline_id == sc.pipeline_id,
                context.requested_raster_space == sc.requested_raster_space,
                context.spatial_node_index == sc.spatial_node_index,
                context.is_backface_visible == sc.is_backface_visible,
                self@.chain(outer).with_filters(
                    context,
                    filters.subrange(i as int, filters.len() as int),
                ) == inner.with_filters(context, filters),
            decreases filters.len() - i,
        {
            let ghost rest = filters.subrange(i as int, filters.len() as int);
            assert(rest.drop_first() =~= filters.subrange(i + 1, filters.len() as int));
            assert(rest[0] == filters[i as int]);
            let filter = SanitizedFilter { filter: sc.composite_ops.filters[i] };
            outer = self.wrap_picture(&sc, outer, PictureCompositeMode::Filter(filter), true);
            i = i + 1;
        }

        // The same for a mix-blend mode, but not if this is the first that is
        // drawn in the parent: there is no backdrop to blend with then, and the
        // blend formula collapses to the source colour.
        if let Some(mix_blend_mode) = sc.composite_ops.mix_blend_mode {
            if !parent_is_empty {
                outer =
                self.wrap_picture(
                    &sc,
                    outer,
                    PictureCompositeMode::MixBlend(mix_blend_mode),
                    false,
                );
            }
        }
        outer
    }

    /// Adds the outermost picture of a stacking context to what is now the top
    /// of the stack.
    fn attach_picture(&mut self, outer: OutermostPicture, has_mix_blend: bool)
        requires
            old(self)@.sc_stack.len() > 0 && old(self)@.sc_stack.last().is_3d()
                ==> !meets_flat_context(old(self)@.sc_stack),
        ensures
            final(self)@ == old(self)@.attach_picture(
                outer.instance,
                outer.pic_index,
                has_mix_blend,
            ),
    {
        let count: usize = self.sc_stack.len();
        if count == 0 {
            // This must be the root stacking context.
            self.root_pic_index = outer.pic_index;
        } else if self.sc_stack[count - 1].is_3d() {
            // The preserve-3d path, only relevant if there are no filters and no
            // mix-blend modes.
            self.add_primitive_instance_to_3d_root(outer.instance);
        } else {
            // The regular parenting path. With a mix-blend mode, the parent has
            // to be isolated to blend correctly.
            let mut parent_sc = self.sc_stack.pop().unwrap();
            if has_mix_blend {
                parent_sc.blit_reason =
                parent_sc.blit_reason.union(
                    BlitReason { preserve_3d: false, clip: false, isolate: true },
                );
            }
            parent_sc.primitives.push(outer.instance);
            self.sc_stack.push(parent_sc);
            assert(contexts_of(self.sc_stack@) =~= old(self)@.attach_picture(
                outer.instance,
                outer.pic_index,
                has_mix_blend,
            ).sc_stack);
        }
    }

    /// Ends the topmost stacking context. `node_is_identity` says whether its
    /// positioning node leaves everything where it is.
    ///
    /// A stacking context that is effectively a no-op makes no picture: what it
    /// drew is appended to its parent. Any other becomes a picture, or a chain
    /// of pictures where there are filters, a mix-blend mode or a 3D hierarchy.
    pub fn pop_stacking_context(&mut self, node_is_identity: bool)
        requires
            old(self)@.can_pop(node_is_identity),
        ensures
            final(self)@ == old(self)@.pop_stacking_context(node_is_identity),
    {
        let mut stacking_context = self.sc_stack.pop().unwrap();
        let ghost sc = stacking_context@;
        assert(self@.sc_stack =~= old(self)@.sc_stack.drop_last());
        let ghost below = self@;
        let count: usize = self.sc_stack.len();
        let mut parent_is_empty = true;
        if count > 0 {
            if stacking_context.is_redundant(&self.sc_stack[count - 1], node_is_identity) {
                let mut parent_sc = self.sc_stack.pop().unwrap();
                parent_sc.primitives.append(&mut stacking_context.primitives);
                self.sc_stack.push(parent_sc);
                assert(self@.sc_stack =~= old(self)@.dissolve_stacking_context().sc_stack);
                return;
            }
            parent_is_empty = self.sc_stack[count - 1].primitives.len() == 0;
        }
        if stacking_context.create_tile_cache {
            self.setup_picture_caching(&mut stacking_context.primitives);
        }
        let has_mix_blend = stacking_context.composite_ops.mix_blend_mode.is_some()
            && !parent_is_empty;
        let clip_chain_id = stacking_context.clip_chain_id;
        let ghost cached = self@;
        let ghost cached_sc = stacking_context@;
        let mut outer = self.add_context_pictures(stacking_context, parent_is_empty);
        proof {
            lemma_context_pictures_keep(cached, cached_sc, parent_is_empty);
        }

        // The clip of the stacking context applies to the outermost picture.
        outer.instance.clip_chain_id = clip_chain_id;
        self.attach_picture(outer, has_mix_blend);
    }
}

/// Filters around a chain of pictures change nothing of the state but the
/// primitive store and the interned data.
proof fn lemma_with_filters_keep(chain: PictureChain, sc: Context, filters: Seq<FilterOp>)
    ensures
        ({
            let state = chain.with_filters(sc, filters).state;
            state == (FlattenerState {
                prim_store: state.prim_store,
                requests: state.requests,
                ..chain.state
            })
        }),
    decreases filters.len(),
{
    if filters.len() > 0 {
        lemma_with_filters_keep(
            chain.wrapped(
                sc,
                PictureCompositeMode::Filter(SanitizedFilter { filter: filters[0] }),
                true,
            ),
            sc,
            filters.drop_first(),
        );
    }
}

/// The pictures of a stacking context change nothing of the state but the
/// primitive store and the interned data.
pub proof fn lemma_context_pictures_keep(state: FlattenerState, sc: Context, parent_is_empty: bool)
    ensures
        ({
            let after = state.context_pictures(sc, parent_is_empty).state;
            after == (FlattenerState {
                prim_store: after.prim_store,
                requests: after.requests,
                ..state
            })
        }),
{
    let inner = state.add_context_picture(
        sc,
        leaf_picture(sc),
        PictureCompositeKey::Of(leaf_composite_mode(sc)),
    ).with_3d_container(sc);
    lemma_with_filters_keep(inner, sc, sc.composite_ops.filters);
}

} // verus!
