//! That everything an instance refers to is stored, and that no picture draws
//! itself, not even through others.
use vstd::prelude::*;

use crate::caching::{lemma_scrolled_until, lemma_unscrolled_before};
use crate::clip_store::ClipItemKey;
use crate::contexts::lemma_context_pictures_keep;
use crate::growth::{lemma_context_pictures_grows, lemma_draw_pending_grows};
use crate::ids::{ClipChainId, PipelineId, ScrollNodeAndClipChain, SpatialNodeIndex};
use crate::layout::{LayoutPoint, LayoutVector2D};
use crate::picture::{
    FilterOp, Instances, Picture3DContext, PictureCompositeKey, PictureCompositeMode,
    PicturePrimitive, PrimitiveInstance, PrimitiveInstanceKind, RasterSpace,
    SanitizedFilter,
};
use crate::primitives::{LayoutPrimitiveInfo, Primitive, Shadow};
use crate::shadows::ShadowItem;
use crate::spatial_tree::TransformStyle;
use crate::stacking_context::{CompositeOps, Context};
use crate::state::{
    add_to_3d_root, caching_cut, context_picture, leaf_composite_mode, leaf_picture,
    lemma_build_clip_chain_keeps, root_3d_place, shadow_composite_mode, FlattenerState,
    PictureChain,
};

verus! {

/// How much is stored: pictures, interned data and records of primitives.
pub struct Stored {
    pub pictures: int,
    pub requests: int,
    pub records: int,
}

impl Stored {
    /// Whether at least as much is stored.
    pub open spec fn covers(self, other: Stored) -> bool {
        &&& self.pictures >= other.pictures
        &&& self.requests >= other.requests
        &&& self.records >= other.records
    }
}

/// Whether all that an instance refers to is stored.
pub open spec fn instance_refers(instance: PrimitiveInstance, stored: Stored) -> bool {
    match instance.kind {
        PrimitiveInstanceKind::Primitive { data_handle, record } => data_handle.index
            < stored.requests && record < stored.records,
        PrimitiveInstanceKind::Picture { data_handle, pic_index } => data_handle.index
            < stored.requests && pic_index.index < stored.pictures,
    }
}

/// Whether all that the instances of a list refer to is stored.
pub open spec fn list_refers(prims: Instances, stored: Stored) -> bool {
    forall|i: int| 0 <= i < prims.len() ==> instance_refers(#[trigger] prims[i], stored)
}

/// Whether all that was collected for a 3D hierarchy refers to what is stored.
pub open spec fn hierarchy_refers(context_3d: Picture3DContext<Instances>, stored: Stored) -> bool {
    context_3d matches Picture3DContext::In { root_data: Some(prims), .. } ==> list_refers(
        prims,
        stored,
    )
}

/// Whether all that was added to a stacking context refers to what is stored.
pub open spec fn context_refers(sc: Context, stored: Stored) -> bool {
    list_refers(sc.primitives, stored) && hierarchy_refers(sc.context_3d, stored)
}

/// Whether all that a picture draws refers to what is stored, and only to
/// pictures that were made before it.
pub open spec fn picture_refers_back(
    picture: PicturePrimitive<Instances>,
    place: int,
    stored: Stored,
) -> bool {
    list_refers(picture.prim_list, Stored { pictures: place, ..stored })
}

impl<'a> FlattenerState<'a> {
    /// How much is stored.
    pub open spec fn stored(self) -> Stored {
        Stored {
            pictures: self.prim_store.pictures.len() as int,
            requests: self.requests.len() as int,
            records: self.prim_store.records.len() as int,
        }
    }

    /// Whether all instances refer to what is stored, and pictures only draw
    /// pictures that were made before them. So no picture draws itself, not even
    /// through others.
    pub open spec fn references_ok(self) -> bool {
        &&& forall|i: int|
            0 <= i < self.sc_stack.len() ==> context_refers(
                #[trigger] self.sc_stack[i],
                self.stored(),
            )
        &&& forall|i: int|
            0 <= i < self.prim_store.pictures.len() ==> picture_refers_back(
                #[trigger] self.prim_store.pictures[i],
                i,
                self.stored(),
            )
    }
}

proof fn lemma_list_refers_more(prims: Instances, a: Stored, b: Stored)
    requires
        list_refers(prims, a),
        b.covers(a),
    ensures
        list_refers(prims, b),
{
    assert forall|i: int| 0 <= i < prims.len() implies instance_refers(
        #[trigger] prims[i],
        b,
    ) by {
        assert(instance_refers(prims[i], a));
    }
}

proof fn lemma_context_refers_more(sc: Context, a: Stored, b: Stored)
    requires
        context_refers(sc, a),
        b.covers(a),
    ensures
        context_refers(sc, b),
{
    lemma_list_refers_more(sc.primitives, a, b);
    if let Picture3DContext::In { root_data: Some(prims), .. } = sc.context_3d {
        lemma_list_refers_more(prims, a, b);
    }
}

/// Where nothing but interned data and records is added, all references stay in
/// order.
pub proof fn lemma_more_stored(before: FlattenerState, after: FlattenerState)
    requires
        before.references_ok(),
        after.sc_stack == before.sc_stack,
        after.prim_store.pictures == before.prim_store.pictures,
        after.stored().covers(before.stored()),
    ensures
        after.references_ok(),
{
    assert forall|i: int| 0 <= i < after.sc_stack.len() implies context_refers(
        #[trigger] after.sc_stack[i],
        after.stored(),
    ) by {
        lemma_context_refers_more(before.sc_stack[i], before.stored(), after.stored());
    }
    assert forall|i: int| 0 <= i < after.prim_store.pictures.len() implies picture_refers_back(
        #[trigger] after.prim_store.pictures[i],
        i,
        after.stored(),
    ) by {
        assert(picture_refers_back(before.prim_store.pictures[i], i, before.stored()));
        lemma_list_refers_more(
            before.prim_store.pictures[i].prim_list,
            Stored { pictures: i, ..before.stored() },
            Stored { pictures: i, ..after.stored() },
        );
    }
}

/// A picture that is added, of instances that are in order, and with an instance
/// of it, leaves all references in order.
proof fn lemma_add_picture_refers(
    state: FlattenerState,
    picture: PicturePrimitive<Instances>,
    is_backface_visible: bool,
    key: PictureCompositeKey,
    clip_chain_id: ClipChainId,
    spatial_node_index: SpatialNodeIndex,
)
    requires
        state.references_ok(),
        list_refers(picture.prim_list, state.stored()),
        state.add_picture(picture, is_backface_visible, key).fits(),
    ensures
        ({
            let after = state.add_picture(picture, is_backface_visible, key);
            &&& after.references_ok()
            &&& instance_refers(
                state.added_picture(clip_chain_id, spatial_node_index),
                after.stored(),
            )
            &&& after.stored().covers(state.stored())
            &&& after.sc_stack == state.sc_stack
        }),
{
    let after = state.add_picture(picture, is_backface_visible, key);
    assert forall|i: int| 0 <= i < after.sc_stack.len() implies context_refers(
        #[trigger] after.sc_stack[i],
        after.stored(),
    ) by {
        lemma_context_refers_more(state.sc_stack[i], state.stored(), after.stored());
    }
    let count = state.prim_store.pictures.len() as int;
    assert forall|i: int| 0 <= i < after.prim_store.pictures.len() implies picture_refers_back(
        #[trigger] after.prim_store.pictures[i],
        i,
        after.stored(),
    ) by {
        if i < count {
            assert(after.prim_store.pictures[i] == state.prim_store.pictures[i]);
            assert(picture_refers_back(state.prim_store.pictures[i], i, state.stored()));
            lemma_list_refers_more(
                state.prim_store.pictures[i].prim_list,
                Stored { pictures: i, ..state.stored() },
                Stored { pictures: i, ..after.stored() },
            );
        } else {
            lemma_list_refers_more(
                picture.prim_list,
                state.stored(),
                Stored { pictures: i, ..after.stored() },
            );
        }
    }
}

/// Another stacking context in a place of the stack, that is in order, leaves
/// all references in order.
proof fn lemma_update_context_refers(state: FlattenerState, place: int, sc: Context)
    requires
        state.references_ok(),
        0 <= place < state.sc_stack.len(),
        context_refers(sc, state.stored()),
    ensures
        (FlattenerState {
            sc_stack: state.sc_stack.update(place, sc),
            ..state
        }).references_ok(),
{
    let after = state.sc_stack.update(place, sc);
    assert forall|i: int| 0 <= i < after.len() implies context_refers(
        #[trigger] after[i],
        state.stored(),
    ) by {
        assert(context_refers(state.sc_stack[i], state.stored()));
    }
}

proof fn lemma_with_top_refers(state: FlattenerState, sc: Context)
    requires
        state.references_ok(),
        state.sc_stack.len() > 0,
        context_refers(sc, state.stored()),
    ensures
        state.with_top(sc).references_ok(),
{
    let last = state.sc_stack.len() - 1;
    assert(state.with_top(sc).sc_stack =~= state.sc_stack.update(last, sc));
    lemma_update_context_refers(state, last, sc);
}

proof fn lemma_push_refers(prims: Instances, instance: PrimitiveInstance, stored: Stored)
    requires
        list_refers(prims, stored),
        instance_refers(instance, stored),
    ensures
        list_refers(prims.push(instance), stored),
{
    let after = prims.push(instance);
    assert forall|i: int| 0 <= i < after.len() implies instance_refers(
        #[trigger] after[i],
        stored,
    ) by {
        if i < prims.len() {
            assert(after[i] == prims[i]);
        }
    }
}

/// An instance that is drawn leaves all references in order, if it is.
proof fn lemma_draw_refers(state: FlattenerState, instance: PrimitiveInstance)
    requires
        state.references_ok(),
        state.sc_stack.len() > 0,
        instance_refers(instance, state.stored()),
    ensures
        state.add_primitive_to_draw_list(instance).references_ok(),
{
    let top = state.sc_stack.last();
    assert(context_refers(state.sc_stack[state.sc_stack.len() - 1], state.stored()));
    lemma_push_refers(top.primitives, instance, state.stored());
    lemma_with_top_refers(
        state,
        Context { primitives: top.primitives.push(instance), ..top },
    );
}

/// A primitive that is made and drawn leaves all references in order.
proof fn lemma_draw_prim_refers<'a>(
    state: FlattenerState<'a>,
    info: LayoutPrimitiveInfo,
    clip_chain_id: ClipChainId,
    clip_and_scroll: ScrollNodeAndClipChain,
    prim: Primitive<'a>,
    offset: LayoutVector2D,
)
    requires
        state.references_ok(),
        state.sc_stack.len() > 0,
        state.add_prim_to_draw_list(
            info,
            clip_chain_id,
            clip_and_scroll,
            prim,
            offset,
        ).fits(),
    ensures
        state.add_prim_to_draw_list(
            info,
            clip_chain_id,
            clip_and_scroll,
            prim,
            offset,
        ).references_ok(),
{
    let made = state.create_primitive(info, prim, offset).add_primitive_to_hit_testing_list(
        info,
        clip_and_scroll,
    );
    lemma_more_stored(state, made);
    lemma_draw_refers(
        made,
        state.created_primitive(info, clip_chain_id, clip_and_scroll.spatial_node_index),
    );
}

/// An instance that is added to a 3D hierarchy leaves all references in order,
/// if it is.
proof fn lemma_add_to_3d_root_refers(state: FlattenerState, instance: PrimitiveInstance)
    requires
        state.references_ok(),
        instance_refers(instance, state.stored()),
    ensures
        state.add_primitive_instance_to_3d_root(instance).references_ok(),
{
    let place = root_3d_place(state.sc_stack);
    if 0 <= place < state.sc_stack.len() {
        let sc = state.sc_stack[place];
        assert(context_refers(sc, state.stored()));
        if let Picture3DContext::In { root_data: Some(prims), .. } = sc.context_3d {
            lemma_push_refers(prims, instance, state.stored());
        }
        lemma_update_context_refers(state, place, add_to_3d_root(sc, instance));
    }
}

/// The picture of flat children leaves all references in order.
proof fn lemma_cut_flat_items_refers(state: FlattenerState)
    requires
        state.references_ok(),
        state.cut_flat_items().fits(),
    ensures
        state.cut_flat_items().references_ok(),
{
    if state.sc_stack.len() > 0 && state.sc_stack.last().has_flat_items() {
        let top = state.sc_stack.last();
        assert(context_refers(state.sc_stack[state.sc_stack.len() - 1], state.stored()));
        let emptied = Context { primitives: Seq::empty(), ..top };
        lemma_with_top_refers(state, emptied);
        let next = state.with_top(emptied);
        lemma_add_picture_refers(
            next,
            top.flat_items_picture(),
            top.is_backface_visible,
            PictureCompositeKey::Identity,
            top.clip_chain_id,
            top.spatial_node_index,
        );
        lemma_add_to_3d_root_refers(
            next.add_picture(
                top.flat_items_picture(),
                top.is_backface_visible,
                PictureCompositeKey::Identity,
            ),
            state.added_picture(top.clip_chain_id, top.spatial_node_index),
        );
    }
}

/// A stacking context that begins leaves all references in order.
pub proof fn law_push_stacking_context_refers(
    state: FlattenerState,
    pipeline_id: PipelineId,
    composite_ops: CompositeOps<Seq<FilterOp>>,
    transform_style: TransformStyle,
    is_backface_visible: bool,
    create_tile_cache: bool,
    spatial_node_index: SpatialNodeIndex,
    clip_chain_id: ClipChainId,
    requested_raster_space: RasterSpace,
)
    requires
        state.references_ok(),
        state.push_stacking_context(
            pipeline_id,
            composite_ops,
            transform_style,
            is_backface_visible,
            create_tile_cache,
            spatial_node_index,
            clip_chain_id,
            requested_raster_space,
        ).fits(),
    ensures
        state.push_stacking_context(
            pipeline_id,
            composite_ops,
            transform_style,
            is_backface_visible,
            create_tile_cache,
            spatial_node_index,
            clip_chain_id,
            requested_raster_space,
        ).references_ok(),
{
    lemma_cut_flat_items_refers(state);
    let cut = state.cut_flat_items();
    let after = state.push_stacking_context(
        pipeline_id,
        composite_ops,
        transform_style,
        is_backface_visible,
        create_tile_cache,
        spatial_node_index,
        clip_chain_id,
        requested_raster_space,
    );
    assert forall|i: int| 0 <= i < after.sc_stack.len() implies context_refers(
        #[trigger] after.sc_stack[i],
        after.stored(),
    ) by {
        if i < cut.sc_stack.len() {
            assert(context_refers(cut.sc_stack[i], cut.stored()));
        }
    }
}

/// A chain of pictures in order, of which the outermost has an instance in
/// order.
spec fn chain_refers(chain: PictureChain) -> bool {
    chain.state.references_ok() && instance_refers(chain.outer.instance, chain.state.stored())
}

proof fn lemma_add_context_picture_refers(
    state: FlattenerState,
    sc: Context,
    picture: PicturePrimitive<Instances>,
    key: PictureCompositeKey,
)
    requires
        state.references_ok(),
        list_refers(picture.prim_list, state.stored()),
        state.add_context_picture(sc, picture, key).state.fits(),
    ensures
        chain_refers(state.add_context_picture(sc, picture, key)),
        state.add_context_picture(sc, picture, key).state.stored().covers(state.stored()),
        state.add_context_picture(sc, picture, key).state.sc_stack == state.sc_stack,
{
    lemma_add_picture_refers(
        state,
        picture,
        sc.is_backface_visible,
        key,
        ClipChainId::Unclipped,
        sc.spatial_node_index,
    );
}

proof fn lemma_wrapped_refers(
    chain: PictureChain,
    sc: Context,
    mode: PictureCompositeMode,
    optimize: bool,
)
    requires
        chain_refers(chain),
        chain.wrapped(sc, mode, optimize).state.fits(),
    ensures
        chain_refers(chain.wrapped(sc, mode, optimize)),
{
    let prims = seq![chain.outer.instance];
    assert(list_refers(prims, chain.state.stored()));
    lemma_add_context_picture_refers(
        chain.state,
        sc,
        context_picture(sc, Some(mode), Picture3DContext::Out, None, prims, optimize),
        PictureCompositeKey::Of(Some(mode)),
    );
}

/// Filters only add pictures and interned data.
proof fn lemma_with_filters_counts(chain: PictureChain, sc: Context, filters: Seq<FilterOp>)
    ensures
        ({
            let after = chain.with_filters(sc, filters).state;
            &&& after.prim_store.pictures.len() == chain.state.prim_store.pictures.len()
                + filters.len()
            &&& after.requests.len() == chain.state.requests.len() + filters.len()
            &&& after.prim_store.records == chain.state.prim_store.records
            &&& after.tree == chain.state.tree
            &&& after.clip_nodes == chain.state.clip_nodes
        }),
    decreases filters.len(),
{
    if filters.len() > 0 {
        lemma_with_filters_counts(
            chain.wrapped(
                sc,
                PictureCompositeMode::Filter(SanitizedFilter { filter: filters[0] }),
                true,
            ),
            sc,
            filters.drop_first(),
        );
    }
}

proof fn lemma_with_filters_refers(chain: PictureChain, sc: Context, filters: Seq<FilterOp>)
    requires
        chain_refers(chain),
        chain.with_filters(sc, filters).state.fits(),
    ensures
        chain_refers(chain.with_filters(sc, filters)),
    decreases filters.len(),
{
    if filters.len() > 0 {
        let mode = PictureCompositeMode::Filter(SanitizedFilter { filter: filters[0] });
        let next = chain.wrapped(sc, mode, true);
        lemma_with_filters_counts(next, sc, filters.drop_first());
        lemma_wrapped_refers(chain, sc, mode, true);
        lemma_with_filters_refers(next, sc, filters.drop_first());
    }
}

/// The pictures of a stacking context leave all references in order.
proof fn lemma_context_pictures_refers(state: FlattenerState, sc: Context, parent_is_empty: bool)
    requires
        state.references_ok(),
        context_refers(sc, state.stored()),
        state.context_pictures(sc, parent_is_empty).state.fits(),
    ensures
        chain_refers(state.context_pictures(sc, parent_is_empty)),
{
    let leaf = state.add_context_picture(
        sc,
        leaf_picture(sc),
        PictureCompositeKey::Of(leaf_composite_mode(sc)),
    );
    let inner = leaf.with_3d_container(sc);
    let filtered = inner.with_filters(sc, sc.composite_ops.filters);
    lemma_with_filters_counts(inner, sc, sc.composite_ops.filters);
    lemma_add_context_picture_refers(
        state,
        sc,
        leaf_picture(sc),
        PictureCompositeKey::Of(leaf_composite_mode(sc)),
    );
    if let Picture3DContext::In { root_data: Some(prims), ancestor_index } = sc.context_3d {
        lemma_list_refers_more(prims, state.stored(), leaf.state.stored());
        lemma_push_refers(prims, leaf.outer.instance, leaf.state.stored());
        lemma_add_context_picture_refers(
            leaf.state,
            sc,
            context_picture(
                sc,
                None,
                Picture3DContext::In { root_data: Some(Seq::empty()), ancestor_index },
                sc.frame_output_pipeline_id,
                prims.push(leaf.outer.instance),
                false,
            ),
            PictureCompositeKey::Identity,
        );
    }
    lemma_with_filters_refers(inner, sc, sc.composite_ops.filters);
    if let Some(mode) = sc.composite_ops.mix_blend_mode {
        if !parent_is_empty {
            lemma_wrapped_refers(filtered, sc, PictureCompositeMode::MixBlend(mode), false);
        }
    }
}

proof fn lemma_subrange_refers(prims: Instances, from: int, to: int, stored: Stored)
    requires
        list_refers(prims, stored),
        0 <= from <= to <= prims.len(),
    ensures
        list_refers(prims.subrange(from, to), stored),
{
    let part = prims.subrange(from, to);
    assert forall|i: int| 0 <= i < part.len() implies instance_refers(
        #[trigger] part[i],
        stored,
    ) by {
        assert(part[i] == prims[from + i]);
    }
}

proof fn lemma_joined_refers(a: Instances, b: Instances, stored: Stored)
    requires
        list_refers(a, stored),
        list_refers(b, stored),
    ensures
        list_refers(a + b, stored),
{
    let joined = a + b;
    assert forall|i: int| 0 <= i < joined.len() implies instance_refers(
        #[trigger] joined[i],
        stored,
    ) by {
        if i < a.len() {
            assert(joined[i] == a[i]);
        } else {
            assert(joined[i] == b[i - a.len()]);
        }
    }
}

/// Picture caching leaves all references in order.
proof fn lemma_caching_refers(state: FlattenerState, prims: Instances)
    requires
        state.references_ok(),
        list_refers(prims, state.stored()),
        state.setup_picture_caching(prims).fits(),
    ensures
        ({
            let after = state.setup_picture_caching(prims);
            &&& after.references_ok()
            &&& list_refers(state.cached_primitives(prims), after.stored())
            &&& after.stored().covers(state.stored())
            &&& after.sc_stack == state.sc_stack
        }),
{
    if state.caches(prims) {
        let cut = caching_cut(state.tree, prims);
        let after = state.setup_picture_caching(prims);
        lemma_unscrolled_before(state.tree, prims);
        lemma_scrolled_until(state.tree, prims);
        let first = cut.preceding.len() as int;
        let end = prims.len() - cut.trailing.len();
        assert(cut.preceding =~= prims.subrange(0, first));
        assert(cut.cached =~= prims.subrange(first, end));
        assert(cut.trailing =~= prims.subrange(end, prims.len() as int));
        lemma_subrange_refers(prims, 0, first, state.stored());
        lemma_subrange_refers(prims, first, end, state.stored());
        lemma_subrange_refers(prims, end, prims.len() as int, state.stored());
        lemma_add_picture_refers(
            state,
            state.caching_picture(cut),
            true,
            PictureCompositeKey::Identity,
            ClipChainId::Unclipped,
            cut.scroll_root,
        );
        let instance = state.added_picture(ClipChainId::Unclipped, cut.scroll_root);
        lemma_list_refers_more(cut.preceding, state.stored(), after.stored());
        lemma_list_refers_more(cut.trailing, state.stored(), after.stored());
        assert(list_refers(seq![instance], after.stored()));
        lemma_joined_refers(cut.preceding, seq![instance], after.stored());
        lemma_joined_refers(cut.preceding + seq![instance], cut.trailing, after.stored());
    }
}

/// A stacking context that ends leaves all references in order.
pub proof fn law_pop_stacking_context_refers(state: FlattenerState, node_is_identity: bool)
    requires
        state.references_ok(),
        state.sc_stack.len() > 0,
        state.pop_stacking_context(node_is_identity).fits(),
    ensures
        state.pop_stacking_context(node_is_identity).references_ok(),
{
    let count = state.sc_stack.len();
    let sc = state.sc_stack.last();
    assert(context_refers(state.sc_stack[count - 1], state.stored()));
    let below = FlattenerState { sc_stack: state.sc_stack.drop_last(), ..state };
    assert forall|i: int| 0 <= i < below.sc_stack.len() implies context_refers(
        #[trigger] below.sc_stack[i],
        below.stored(),
    ) by {
        assert(context_refers(state.sc_stack[i], state.stored()));
    }
    assert(below.references_ok());
    if state.top_is_redundant(node_is_identity) {
        let parent = below.sc_stack.last();
        assert(context_refers(below.sc_stack[count - 2], below.stored()));
        lemma_joined_refers(parent.primitives, sc.primitives, below.stored());
        lemma_with_top_refers(
            below,
            Context { primitives: parent.primitives + sc.primitives, ..parent },
        );
    } else {
        let parent_is_empty = below.sc_stack.len() == 0
            || below.sc_stack.last().primitives.len() == 0;
        let cached = if sc.create_tile_cache {
            below.setup_picture_caching(sc.primitives)
        } else {
            below
        };
        let prims = if sc.create_tile_cache {
            below.cached_primitives(sc.primitives)
        } else {
            sc.primitives
        };
        let cached_sc = Context { primitives: prims, ..sc };
        let chain = cached.context_pictures(cached_sc, parent_is_empty);
        lemma_context_pictures_grows(cached, cached_sc, parent_is_empty);
        lemma_context_pictures_keep(cached, cached_sc, parent_is_empty);
        if sc.create_tile_cache {
            lemma_caching_refers(below, sc.primitives);
            if let Picture3DContext::In { root_data: Some(collected), .. } = sc.context_3d {
                lemma_list_refers_more(collected, below.stored(), cached.stored());
            }
        }
        lemma_context_pictures_refers(cached, cached_sc, parent_is_empty);
        let instance = PrimitiveInstance {
            clip_chain_id: sc.clip_chain_id,
            ..chain.outer.instance
        };
        if below.sc_stack.len() > 0 {
            let parent = below.sc_stack.last();
            if parent.is_3d() {
                lemma_add_to_3d_root_refers(chain.state, instance);
            } else {
                assert(context_refers(chain.state.sc_stack[count - 2], chain.state.stored()));
                lemma_push_refers(parent.primitives, instance, chain.state.stored());
                let after = chain.state.attach_picture(
                    instance,
                    chain.outer.pic_index,
                    sc.composite_ops.mix_blend_mode is Some && !parent_is_empty,
                );
                lemma_with_top_refers(chain.state, after.sc_stack.last());
            }
        }
    }
}

/// The primitives that a shadow shows leave all references in order, and so are
/// theirs.
proof fn lemma_add_shadow_prims_refers<'a>(
    state: FlattenerState<'a>,
    shadow: Shadow,
    items: Seq<ShadowItem<'a>>,
    offset: LayoutVector2D,
)
    requires
        state.references_ok(),
        state.add_shadow_prims(shadow, items, offset).fits(),
    ensures
        state.add_shadow_prims(shadow, items, offset).references_ok(),
        list_refers(
            state.added_shadow_prims(shadow, items, offset),
            state.add_shadow_prims(shadow, items, offset).stored(),
        ),
        state.add_shadow_prims(shadow, items, offset).stored().covers(state.stored()),
        state.add_shadow_prims(shadow, items, offset).sc_stack == state.sc_stack,
    decreases items.len(),
{
    if items.len() > 0 {
        let rest = items.drop_last();
        let before = state.add_shadow_prims(shadow, rest, offset);
        let after = state.add_shadow_prims(shadow, items, offset);
        lemma_add_shadow_prims_refers(state, shadow, rest, offset);
        lemma_more_stored(before, after);
        let prims = state.added_shadow_prims(shadow, rest, offset);
        lemma_list_refers_more(prims, before.stored(), after.stored());
        if let Some(parts) = items.last().parts() {
            lemma_push_refers(prims, before.added_shadow_prim(shadow, parts), after.stored());
        }
    }
}

/// Drawing pending items leaves all references in order.
proof fn lemma_draw_pending_refers<'a>(
    state: FlattenerState<'a>,
    items: Seq<ShadowItem<'a>>,
    offset: LayoutVector2D,
)
    requires
        state.references_ok(),
        state.sc_stack.len() > 0,
        state.draw_pending(items, offset).fits(),
    ensures
        state.draw_pending(items, offset).references_ok(),
    decreases items.len(),
{
    if items.len() > 0 {
        let rest = items.drop_first();
        let next = match items[0] {
            ShadowItem::Shadow(pending) => state.draw_shadow(pending, rest, offset),
            item => state.add_shadow_prim_to_draw_list(item.parts()->0, offset),
        };
        lemma_draw_pending_grows(next, rest, offset);
        match items[0] {
            ShadowItem::Shadow(pending) => {
                let made = state.add_shadow_prims(pending.shadow, rest, offset);
                let prims = state.added_shadow_prims(pending.shadow, rest, offset);
                lemma_add_shadow_prims_refers(state, pending.shadow, rest, offset);
                if prims.len() > 0 {
                    let key = PictureCompositeKey::Of(
                        Some(shadow_composite_mode(pending.shadow)),
                    );
                    lemma_add_picture_refers(
                        made,
                        made.shadow_picture(pending, prims),
                        true,
                        key,
                        pending.clip_and_scroll.clip_chain_id,
                        pending.clip_and_scroll.spatial_node_index,
                    );
                    lemma_draw_refers(
                        made.add_picture(made.shadow_picture(pending, prims), true, key),
                        made.added_picture(
                            pending.clip_and_scroll.clip_chain_id,
                            pending.clip_and_scroll.spatial_node_index,
                        ),
                    );
                }
            },
            item => {
                let parts = item.parts()->0;
                if parts.visible {
                    lemma_draw_prim_refers(
                        state,
                        parts.info,
                        parts.clip_and_scroll.clip_chain_id,
                        parts.clip_and_scroll,
                        parts.key,
                        offset,
                    );
                }
            },
        }
        lemma_draw_pending_refers(next, rest, offset);
    }
}

/// A primitive that casts no shadow leaves all references in order.
pub proof fn law_add_nonshadowable_primitive_refers<'a>(
    state: FlattenerState<'a>,
    clip_and_scroll: ScrollNodeAndClipChain,
    info: LayoutPrimitiveInfo,
    clip_items: Seq<(LayoutPoint, ClipItemKey)>,
    prim: Primitive<'a>,
    visible: bool,
    offset: LayoutVector2D,
)
    requires
        state.references_ok(),
        state.sc_stack.len() > 0,
        state.add_nonshadowable_primitive(
            clip_and_scroll,
            info,
            clip_items,
            prim,
            visible,
            offset,
        ).fits(),
    ensures
        state.add_nonshadowable_primitive(
            clip_and_scroll,
            info,
            clip_items,
            prim,
            visible,
            offset,
        ).references_ok(),
{
    if visible {
        let spatial = clip_and_scroll.spatial_node_index;
        let parent = clip_and_scroll.clip_chain_id;
        let built = state.build_clip_chain(clip_items, spatial, parent);
        lemma_build_clip_chain_keeps(state, clip_items, spatial, parent);
        lemma_more_stored(state, built);
        lemma_draw_prim_refers(
            built,
            info,
            state.built_clip_chain(clip_items.len(), parent),
            clip_and_scroll,
            prim,
            offset,
        );
    }
}

/// A primitive that can cast a shadow leaves all references in order.
pub proof fn law_add_primitive_refers<'a>(
    state: FlattenerState<'a>,
    clip_and_scroll: ScrollNodeAndClipChain,
    info: LayoutPrimitiveInfo,
    clip_items: Seq<(LayoutPoint, ClipItemKey)>,
    prim: Primitive<'a>,
    visible: bool,
    pending: ShadowItem<'a>,
    offset: LayoutVector2D,
)
    requires
        state.references_ok(),
        state.sc_stack.len() > 0,
        state.add_primitive(
            clip_and_scroll,
            info,
            clip_items,
            prim,
            visible,
            pending,
            offset,
        ).fits(),
    ensures
        state.add_primitive(
            clip_and_scroll,
            info,
            clip_items,
            prim,
            visible,
            pending,
            offset,
        ).references_ok(),
{
    if state.pending_shadow_items.len() == 0 {
        law_add_nonshadowable_primitive_refers(
            state,
            clip_and_scroll,
            info,
            clip_items,
            prim,
            visible,
            offset,
        );
    }
}

/// Ending all shadows leaves all references in order.
pub proof fn law_pop_all_shadows_refers(state: FlattenerState, offset: LayoutVector2D)
    requires
        state.references_ok(),
        state.sc_stack.len() > 0,
        state.pop_all_shadows(offset).fits(),
    ensures
        state.pop_all_shadows(offset).references_ok(),
{
    let start = FlattenerState { pending_shadow_items: Seq::empty(), ..state };
    lemma_more_stored(state, start);
    lemma_draw_pending_refers(start, state.pending_shadow_items, offset);
}

} // verus!
