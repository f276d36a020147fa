//! That a scene only grows: what is stored stays where it is, so indices stay
//! valid, and ids stay mapped.
use vstd::prelude::*;

use crate::clip_store::{ClipChainNode, ClipItemKey, ClipRegion};
use crate::display_list::{DisplayItem, SpaceAndClipInfo, SpecificDisplayItem};
use crate::ids::{ClipChainId, ClipId, ScrollNodeAndClipChain, SpatialNodeIndex};
use crate::layout::{LayoutPoint, LayoutVector2D};
use crate::picture::{FilterOp, PictureCompositeKey, PictureCompositeMode, SanitizedFilter};
use crate::primitives::Shadow;
use crate::shadows::ShadowItem;
use crate::stacking_context::Context;
use crate::state::{leaf_composite_mode, leaf_picture, region_items, FlattenerState, PictureChain};
use crate::traversal::{item_clip_and_scroll, past, Flattening};

verus! {

impl<'a> FlattenerState<'a> {
    /// Whether all that is stored in `self` is stored at the same place in
    /// `after`: positioning nodes, clip chain nodes, interned data, pictures and
    /// records of primitives. Ids that are mapped stay mapped. What is given from
    /// outside is the same.
    pub open spec fn grows_to(self, after: FlattenerState<'a>) -> bool {
        &&& self.scene == after.scene
        &&& self.font_instances == after.font_instances
        &&& self.output_pipelines == after.output_pipelines
        &&& self.config == after.config
        &&& self.tree.is_prefix_of(after.tree)
        &&& self.clip_nodes.is_prefix_of(after.clip_nodes)
        &&& self.requests.is_prefix_of(after.requests)
        &&& self.prim_store.pictures.is_prefix_of(after.prim_store.pictures)
        &&& self.prim_store.records.is_prefix_of(after.prim_store.records)
        &&& self.ids_stay(after)
    }

    /// Whether all ids that are mapped in `self` are mapped in `after`.
    pub open spec fn ids_stay(self, after: FlattenerState<'a>) -> bool {
        &&& self.mapping.clips.dom().subset_of(after.mapping.clips.dom())
        &&& self.mapping.spatial.dom().subset_of(after.mapping.spatial.dom())
    }
}

/// A prefix of a prefix is a prefix.
pub proof fn lemma_prefix_trans<T>(a: Seq<T>, b: Seq<T>, c: Seq<T>)
    requires
        a.is_prefix_of(b),
        b.is_prefix_of(c),
    ensures
        a.is_prefix_of(c),
{
    assert forall|i: int| 0 <= i < a.len() implies a[i] == c.subrange(0, a.len() as int)[i] by {
        assert(a[i] == b.subrange(0, a.len() as int)[i]);
        assert(b[i] == c.subrange(0, b.len() as int)[i]);
    }
}

/// Growing twice is growing.
pub proof fn lemma_grows_trans<'a>(
    a: FlattenerState<'a>,
    b: FlattenerState<'a>,
    c: FlattenerState<'a>,
)
    requires
        a.grows_to(b),
        b.grows_to(c),
    ensures
        a.grows_to(c),
{
    lemma_prefix_trans(a.tree, b.tree, c.tree);
    lemma_prefix_trans(a.clip_nodes, b.clip_nodes, c.clip_nodes);
    lemma_prefix_trans(a.requests, b.requests, c.requests);
    lemma_prefix_trans(a.prim_store.pictures, b.prim_store.pictures, c.prim_store.pictures);
    lemma_prefix_trans(a.prim_store.records, b.prim_store.records, c.prim_store.records);
}

/// Building a clip chain takes nothing out of the stores.
pub proof fn lemma_build_clip_chain_grows(
    state: FlattenerState,
    items: Seq<(LayoutPoint, ClipItemKey)>,
    spatial_node_index: SpatialNodeIndex,
    parent: ClipChainId,
)
    ensures
        state.grows_to(state.build_clip_chain(items, spatial_node_index, parent)),
    decreases items.len(),
{
    if items.len() > 0 {
        let next = state.add_clip_item(items[0].0, items[0].1, spatial_node_index, parent);
        let rest = items.drop_first();
        lemma_build_clip_chain_grows(next, rest, spatial_node_index, state.next_clip());
        lemma_grows_trans(
            state,
            next,
            next.build_clip_chain(rest, spatial_node_index, state.next_clip()),
        );
    }
}

proof fn lemma_add_clip_node_grows(
    state: FlattenerState,
    new_node_id: ClipId,
    space_and_clip: SpaceAndClipInfo,
    clip_region: ClipRegion,
)
    ensures
        state.grows_to(state.add_clip_node(new_node_id, space_and_clip, clip_region)),
{
    lemma_build_clip_chain_grows(
        state,
        region_items(clip_region),
        state.mapping.spatial[space_and_clip.spatial_id],
        state.mapping.clips[space_and_clip.clip_id].id,
    );
}

proof fn lemma_copy_clip_nodes_grows(
    state: FlattenerState,
    from: ClipChainId,
    count: nat,
    parent: ClipChainId,
)
    ensures
        state.grows_to(state.copy_clip_nodes(from, count, parent)),
    decreases count,
{
    if count > 0 {
        let node = state.clip_nodes[from->Node_0 as int];
        let next = FlattenerState {
            clip_nodes: state.clip_nodes.push(
                ClipChainNode { parent_clip_chain_id: parent, ..node },
            ),
            ..state
        };
        let above = node.parent_clip_chain_id;
        lemma_copy_clip_nodes_grows(next, above, (count - 1) as nat, state.next_clip());
        lemma_grows_trans(
            state,
            next,
            next.copy_clip_nodes(above, (count - 1) as nat, state.next_clip()),
        );
    }
}

proof fn lemma_link_clips_grows(state: FlattenerState, clip_ids: Seq<ClipId>, parent: ClipChainId)
    ensures
        state.grows_to(state.link_clips(clip_ids, parent)),
    decreases clip_ids.len(),
{
    if clip_ids.len() > 0 {
        let node = state.mapping.clips[clip_ids[0]];
        let copied = state.copy_clip_nodes(node.id, node.count as nat, parent);
        let next = state.built_clip_chain(node.count as nat, parent);
        lemma_copy_clip_nodes_grows(state, node.id, node.count as nat, parent);
        lemma_link_clips_grows(copied, clip_ids.drop_first(), next);
        lemma_grows_trans(state, copied, copied.link_clips(clip_ids.drop_first(), next));
    }
}

proof fn lemma_with_filters_grows(chain: PictureChain, sc: Context, filters: Seq<FilterOp>)
    ensures
        chain.state.grows_to(chain.with_filters(sc, filters).state),
    decreases filters.len(),
{
    if filters.len() > 0 {
        let next = chain.wrapped(
            sc,
            PictureCompositeMode::Filter(SanitizedFilter { filter: filters[0] }),
            true,
        );
        lemma_with_filters_grows(next, sc, filters.drop_first());
        lemma_grows_trans(
            chain.state,
            next.state,
            next.with_filters(sc, filters.drop_first()).state,
        );
    }
}

pub proof fn lemma_context_pictures_grows(state: FlattenerState, sc: Context, parent_is_empty: bool)
    ensures
        state.grows_to(state.context_pictures(sc, parent_is_empty).state),
{
    let inner = state.add_context_picture(
        sc,
        leaf_picture(sc),
        PictureCompositeKey::Of(leaf_composite_mode(sc)),
    ).with_3d_container(sc);
    let filtered = inner.with_filters(sc, sc.composite_ops.filters);
    lemma_with_filters_grows(inner, sc, sc.composite_ops.filters);
    lemma_grows_trans(state, inner.state, filtered.state);
    lemma_grows_trans(
        state,
        filtered.state,
        filtered.with_mix_blend(sc, parent_is_empty).state,
    );
}

/// A stacking context that ends takes nothing out of the stores.
pub proof fn law_pop_stacking_context_grows(state: FlattenerState, node_is_identity: bool)
    ensures
        state.grows_to(state.pop_stacking_context(node_is_identity)),
{
    if !state.top_is_redundant(node_is_identity) {
        let sc = state.sc_stack.last();
        let below = FlattenerState { sc_stack: state.sc_stack.drop_last(), ..state };
        let parent_is_empty = below.sc_stack.len() == 0
            || below.sc_stack.last().primitives.len() == 0;
        let cached = if sc.create_tile_cache {
            below.setup_picture_caching(sc.primitives)
        } else {
            below
        };
        let prims = if sc.create_tile_cache {
            below.cached_primitives(sc.primitives)
        } else {
            sc.primitives
        };
        let cached_sc = Context { primitives: prims, ..sc };
        lemma_context_pictures_grows(cached, cached_sc, parent_is_empty);
        lemma_grows_trans(
            state,
            cached,
            cached.context_pictures(cached_sc, parent_is_empty).state,
        );
    }
}

proof fn lemma_add_shadow_prims_grows<'a>(
    state: FlattenerState<'a>,
    shadow: Shadow,
    items: Seq<ShadowItem<'a>>,
    offset: LayoutVector2D,
)
    ensures
        state.grows_to(state.add_shadow_prims(shadow, items, offset)),
    decreases items.len(),
{
    if items.len() > 0 {
        lemma_add_shadow_prims_grows(state, shadow, items.drop_last(), offset);
        lemma_grows_trans(
            state,
            state.add_shadow_prims(shadow, items.drop_last(), offset),
            state.add_shadow_prims(shadow, items, offset),
        );
    }
}

pub proof fn lemma_draw_pending_grows<'a>(
    state: FlattenerState<'a>,
    items: Seq<ShadowItem<'a>>,
    offset: LayoutVector2D,
)
    ensures
        state.grows_to(state.draw_pending(items, offset)),
    decreases items.len(),
{
    if items.len() > 0 {
        let rest = items.drop_first();
        let next = match items[0] {
            ShadowItem::Shadow(pending) => state.draw_shadow(pending, rest, offset),
            item => state.add_shadow_prim_to_draw_list(item.parts()->0, offset),
        };
        if let ShadowItem::Shadow(pending) = items[0] {
            let made = state.add_shadow_prims(pending.shadow, rest, offset);
            lemma_add_shadow_prims_grows(state, pending.shadow, rest, offset);
            lemma_grows_trans(state, made, next);
        }
        lemma_draw_pending_grows(next, rest, offset);
        lemma_grows_trans(state, next, next.draw_pending(rest, offset));
    }
}

proof fn lemma_drawn_item_grows<'a>(
    flattening: Flattening<'a>,
    item: &'a DisplayItem,
    cs: ScrollNodeAndClipChain,
)
    requires
        item.item is Image || item.item is YuvImage || item.item is Text || item.item is Rectangle
            || item.item is ClearRectangle || item.item is Line,
    ensures
        flattening.state.grows_to(flattening.flatten_placed_item(item, cs).flattening.state),
{
    reveal(Flattening::flatten_placed_item);
}

proof fn lemma_gradient_grows<'a>(
    flattening: Flattening<'a>,
    item: &'a DisplayItem,
    cs: ScrollNodeAndClipChain,
)
    requires
        item.item is Gradient || item.item is RadialGradient || item.item is Border
            || item.item is BoxShadow,
    ensures
        flattening.state.grows_to(flattening.flatten_placed_item(item, cs).flattening.state),
{
    reveal(Flattening::flatten_placed_item);
}

proof fn lemma_structural_item_grows<'a>(
    flattening: Flattening<'a>,
    item: &'a DisplayItem,
    cs: ScrollNodeAndClipChain,
)
    requires
        !(item.item is Image || item.item is YuvImage || item.item is Text || item.item
            is Rectangle || item.item is ClearRectangle || item.item is Line),
        !(item.item is Gradient || item.item is RadialGradient || item.item is Border || item.item
            is BoxShadow),
    ensures
        flattening.state.grows_to(flattening.flatten_placed_item(item, cs).flattening.state),
{
    reveal(Flattening::flatten_placed_item);
    let state = flattening.state;
    let offset = flattening.top().offset;
    let after = flattening.flatten_placed_item(item, cs).flattening.state;
    match item.item {
        SpecificDisplayItem::PopAllShadows => {
            lemma_draw_pending_grows(
                FlattenerState { pending_shadow_items: Seq::empty(), ..state },
                state.pending_shadow_items,
                offset,
            );
        },
        SpecificDisplayItem::Clip { id, image_mask, complex_clips } => {
            lemma_add_clip_node_grows(
                state,
                id,
                item.space_and_clip,
                ClipRegion::create_for_clip_node(
                    item.clip_rect,
                    &complex_clips,
                    image_mask,
                    offset,
                ),
            );
        },
        SpecificDisplayItem::ScrollFrame { clip_id, image_mask, complex_clips, .. } => {
            let region = ClipRegion::create_for_clip_node(
                item.clip_rect,
                &complex_clips,
                image_mask,
                offset,
            );
            let clipped = state.add_clip_node(clip_id, item.space_and_clip, region);
            lemma_add_clip_node_grows(state, clip_id, item.space_and_clip, region);
            if after != state {
                lemma_grows_trans(state, clipped, after);
            }
        },
        SpecificDisplayItem::Iframe { pipeline_id } => {
            let root = ClipId::root(pipeline_id);
            let region = ClipRegion::create_for_clip_node_with_local_clip(item.clip_rect, offset);
            let clipped = state.add_clip_node(root, item.space_and_clip, region);
            lemma_add_clip_node_grows(state, root, item.space_and_clip, region);
            if after != state {
                lemma_grows_trans(state, clipped, after);
            }
        },
        SpecificDisplayItem::ClipChain { id, parent, clip_ids } => {
            let parent_clip_chain_id = match parent {
                Some(parent_id) => state.mapping.clips[ClipId::ClipChain(parent_id)].id,
                None => state.pipeline_clip_chain_stack.last(),
            };
            lemma_link_clips_grows(state, clip_ids@, parent_clip_chain_id);
        },
        _ => {},
    }
}

proof fn lemma_flatten_item_grows<'a>(
    flattening: Flattening<'a>,
    item: &'a DisplayItem,
    cs: ScrollNodeAndClipChain,
)
    ensures
        flattening.state.grows_to(flattening.flatten_placed_item(item, cs).flattening.state),
{
    if item.item is Image || item.item is YuvImage || item.item is Text || item.item is Rectangle
        || item.item is ClearRectangle || item.item is Line {
        lemma_drawn_item_grows(flattening, item, cs);
    } else if item.item is Gradient || item.item is RadialGradient || item.item is Border
        || item.item is BoxShadow {
        lemma_gradient_grows(flattening, item, cs);
    } else {
        lemma_structural_item_grows(flattening, item, cs);
    }
}

/// No step takes anything out of the stores, or moves it in them.
pub proof fn law_step_grows(flattening: Flattening)
    ensures
        flattening.state.grows_to(flattening.step().flattening.state),
{
    let top = flattening.top();
    let next = flattening.with_cursor(past(top.list@, top.cursor));
    law_pop_stacking_context_grows(flattening.state, false);
    let item = &top.list@[top.cursor as int];
    if let Ok(cs) = item_clip_and_scroll(
        flattening.state,
        *item,
        next.top().apply_pipeline_clip,
    ) {
        lemma_flatten_item_grows(next, item, cs);
    }
}

/// Ending a stacking context takes nothing out of the stores, and moves nothing
/// in them.
pub proof fn law_end_stacking_context_grows(flattening: Flattening, node_is_identity: bool)
    ensures
        flattening.state.grows_to(
            flattening.end_stacking_context(node_is_identity).flattening.state,
        ),
{
    law_pop_stacking_context_grows(flattening.state, node_is_identity);
}

} // verus!
