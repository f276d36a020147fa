//! What holds of a scene while it is being built, and that every operation keeps
//! it.
use vstd::prelude::*;

use crate::clip_store::{
    clip_chain_len, clip_id_within, clip_nodes_ordered, lemma_clip_chain_len_push, ClipChainNode,
    ClipItemKey, ClipRegion,
};
use crate::contexts::lemma_context_pictures_keep;
use crate::display_list::SpaceAndClipInfo;
use crate::ids::{
    ClipChainId, ClipId, PipelineId, ScrollNodeAndClipChain, SpatialId, SpatialNodeIndex,
};
use crate::layout::{LayoutPoint, LayoutVector2D};
use crate::mapper::{ClipNode, Mapping};
use crate::picture::{
    FilterOp, Picture3DContext, PictureCompositeKey, PictureCompositeMode, PrimitiveInstance,
    RasterSpace, SanitizedFilter,
};
use crate::primitives::{LayoutPrimitiveInfo, Primitive, Shadow};
use crate::shadows::ShadowItem;
use crate::spatial_tree::{spatial_nodes_ordered, SpatialNode, TransformStyle};
use crate::stacking_context::{CompositeOps, Context};
use crate::state::{
    add_to_3d_root, leaf_composite_mode, leaf_picture, lemma_build_clip_chain_keeps,
    meets_flat_context, region_items, root_3d_place, shadow_composite_mode, FlattenerState,
    PictureChain,
};
use crate::traversal::all_clips_known;

verus! {

/// Whether a clip that an id is mapped to is stored: its clip chain is, and is
/// at least as long as what the clip itself contributed.
pub open spec fn clip_stored(node: ClipNode, nodes: Seq<ClipChainNode>) -> bool {
    clip_id_within(node.id, nodes.len()) && clip_chain_len(nodes, node.id) >= node.count
}

/// Whether everything that an id is mapped to is there.
pub open spec fn mapping_ok(mapping: Mapping, tree_len: nat, nodes: Seq<ClipChainNode>) -> bool {
    &&& forall|id: SpatialId|
        mapping.spatial.contains_key(id) ==> (#[trigger] mapping.spatial[id]).index < tree_len
    &&& forall|id: ClipId|
        mapping.clips.contains_key(id) ==> clip_stored(#[trigger] mapping.clips[id], nodes)
}

/// Whether the tree holds the positioning nodes of a stacking context, and of
/// what was added to it.
pub open spec fn context_placed(sc: Context, tree_len: nat) -> bool {
    &&& sc.spatial_node_index.index < tree_len
    &&& forall|i: int|
        0 <= i < sc.primitives.len() ==> (#[trigger] sc.primitives[i]).spatial_node_index.index
            < tree_len
}

/// Whether the tree holds the positioning nodes of all stacking contexts.
pub open spec fn contexts_placed(stack: Seq<Context>, tree_len: nat) -> bool {
    forall|i: int| 0 <= i < stack.len() ==> context_placed(#[trigger] stack[i], tree_len)
}

/// Whether a stacking context takes part in a 3D hierarchy without being its
/// root.
pub open spec fn joins_hierarchy(sc: Context) -> bool {
    sc.context_3d matches Picture3DContext::In { root_data, .. } && root_data is None
}

/// Whether the stacking context at a place of the stack takes part in a 3D
/// hierarchy if it is preserve-3d, and has a preserve-3d parent if it takes part
/// in one without being its root.
pub open spec fn hierarchy_whole_at(stack: Seq<Context>, i: int) -> bool {
    &&& stack[i].is_3d() ==> stack[i].context_3d is In
    &&& joins_hierarchy(stack[i]) ==> 0 < i && stack[i - 1].is_3d()
}

/// Whether all 3D hierarchies are whole.
pub open spec fn hierarchies_whole(stack: Seq<Context>) -> bool {
    forall|i: int| 0 <= i < stack.len() ==> #[trigger] hierarchy_whole_at(stack, i)
}

/// Whether a stacking context is plain: it has no filter and no mix-blend mode,
/// takes part in no 3D hierarchy, and keeps no tile cache.
pub open spec fn is_plain(sc: Context) -> bool {
    &&& sc.composite_ops.is_empty()
    &&& sc.transform_style is Flat
    &&& sc.context_3d is Out
    &&& !sc.create_tile_cache
}

/// Where a pending item is placed.
pub open spec fn pending_place(item: ShadowItem) -> SpatialNodeIndex {
    match item {
        ShadowItem::Shadow(pending) => pending.clip_and_scroll.spatial_node_index,
        _ => item.parts()->0.clip_and_scroll.spatial_node_index,
    }
}

/// Whether the tree holds the positioning nodes of all pending items.
pub open spec fn pending_placed(items: Seq<ShadowItem>, tree_len: nat) -> bool {
    forall|i: int| 0 <= i < items.len() ==> pending_place(#[trigger] items[i]).index < tree_len
}

/// Whether the clip store holds all root clip chains of pipelines.
pub open spec fn clip_stack_stored(stack: Seq<ClipChainId>, nodes_len: nat) -> bool {
    forall|i: int| 0 <= i < stack.len() ==> clip_id_within(#[trigger] stack[i], nodes_len)
}

impl<'a> FlattenerState<'a> {
    /// What holds while a scene is being built.
    pub open spec fn wf(self) -> bool {
        &&& self.tree.len() > 0
        &&& spatial_nodes_ordered(self.tree)
        &&& clip_nodes_ordered(self.clip_nodes)
        &&& mapping_ok(self.mapping, self.tree.len(), self.clip_nodes)
        &&& contexts_placed(self.sc_stack, self.tree.len())
        &&& hierarchies_whole(self.sc_stack)
        &&& self.sc_stack.len() > 0 ==> is_plain(self.sc_stack[0])
        &&& pending_placed(self.pending_shadow_items, self.tree.len())
        &&& clip_stack_stored(self.pipeline_clip_chain_stack, self.clip_nodes.len())
        &&& self.scene.root_pipeline_id is Some
    }

    /// Whether all positions in the stores can be held by indices.
    pub open spec fn fits(self) -> bool {
        &&& self.tree.len() <= usize::MAX
        &&& self.clip_nodes.len() <= usize::MAX
        &&& self.requests.len() <= usize::MAX
        &&& self.prim_store.pictures.len() <= usize::MAX
        &&& self.prim_store.records.len() <= usize::MAX
    }
}

/// The root of a 3D hierarchy is always found, from any stacking context that
/// takes part in it.
pub proof fn law_3d_root_found(stack: Seq<Context>)
    requires
        hierarchies_whole(stack),
        stack.len() > 0,
        stack.last().context_3d is In,
    ensures
        !meets_flat_context(stack),
        0 <= root_3d_place(stack) < stack.len(),
        stack[root_3d_place(stack)].context_3d is In,
        !joins_hierarchy(stack[root_3d_place(stack)]),
    decreases stack.len(),
{
    let last = stack.len() - 1;
    assert(hierarchy_whole_at(stack, last));
    if joins_hierarchy(stack[last]) {
        let below = stack.drop_last();
        assert forall|i: int| 0 <= i < below.len() implies #[trigger] hierarchy_whole_at(
            below,
            i,
        ) by {
            assert(hierarchy_whole_at(stack, i));
        }
        assert(hierarchy_whole_at(stack, last - 1));
        law_3d_root_found(below);
    }
}

/// A positioning node that is added under a node of the tree keeps the
/// invariant.
pub proof fn lemma_add_spatial_node_wf(state: FlattenerState, id: SpatialId, node: SpatialNode)
    requires
        state.wf(),
        state.tree.len() <= usize::MAX,
        node.parent matches Some(p) && p.index < state.tree.len(),
    ensures
        state.add_spatial_node(id, node).wf(),
{
    let after = state.add_spatial_node(id, node);
    assert(after.tree.len() == state.tree.len() + 1);
    assert forall|i: int| 0 < i < after.tree.len() implies (
    (#[trigger] after.tree[i]).parent matches Some(p) && p.index < i) by {
        if i < state.tree.len() {
            assert(after.tree[i] == state.tree[i]);
        }
    }
    assert forall|i: int| 0 <= i < after.sc_stack.len() implies context_placed(
        #[trigger] after.sc_stack[i],
        after.tree.len(),
    ) by {
        assert(context_placed(state.sc_stack[i], state.tree.len()));
    }
    assert forall|i: int| 0 <= i < after.pending_shadow_items.len() implies pending_place(
        #[trigger] after.pending_shadow_items[i],
    ).index < after.tree.len() by {
        assert(pending_place(state.pending_shadow_items[i]).index < state.tree.len());
    }
}

/// A node that is added to the clip store, on top of a chain in it, keeps the
/// invariant. Its chain is that one, and itself.
pub proof fn lemma_add_clip_node_wf(
    state: FlattenerState,
    after: FlattenerState,
    node: ClipChainNode,
)
    requires
        state.wf(),
        state.clip_nodes.len() <= usize::MAX,
        clip_id_within(node.parent_clip_chain_id, state.clip_nodes.len()),
        after == (FlattenerState {
            clip_nodes: state.clip_nodes.push(node),
            requests: after.requests,
            ..state
        }),
    ensures
        after.wf(),
        clip_id_within(state.next_clip(), after.clip_nodes.len()),
        clip_chain_len(after.clip_nodes, state.next_clip()) == 1 + clip_chain_len(
            state.clip_nodes,
            node.parent_clip_chain_id,
        ),
{
    let nodes = state.clip_nodes;
    assert forall|i: int| 0 <= i < after.clip_nodes.len() implies clip_id_within(
        (#[trigger] after.clip_nodes[i]).parent_clip_chain_id,
        i as nat,
    ) by {
        if i < nodes.len() {
            assert(after.clip_nodes[i] == nodes[i]);
        }
    }
    assert forall|id: ClipId| after.mapping.clips.contains_key(id) implies clip_stored(
        #[trigger] after.mapping.clips[id],
        after.clip_nodes,
    ) by {
        assert(clip_stored(state.mapping.clips[id], nodes));
        lemma_clip_chain_len_push(nodes, node, state.mapping.clips[id].id);
    }
    assert forall|i: int| 0 <= i < after.pipeline_clip_chain_stack.len() implies clip_id_within(
        #[trigger] after.pipeline_clip_chain_stack[i],
        after.clip_nodes.len(),
    ) by {
        assert(clip_id_within(state.pipeline_clip_chain_stack[i], nodes.len()));
    }
    lemma_clip_chain_len_push(nodes, node, node.parent_clip_chain_id);
}

/// A clip chain that is built on top of a stored one keeps the invariant, and is
/// longer by the number of its items.
pub proof fn lemma_build_clip_chain_wf(
    state: FlattenerState,
    items: Seq<(LayoutPoint, ClipItemKey)>,
    spatial_node_index: SpatialNodeIndex,
    parent: ClipChainId,
)
    requires
        state.wf(),
        state.clip_nodes.len() + items.len() <= usize::MAX,
        state.tree.len() <= usize::MAX,
        clip_id_within(parent, state.clip_nodes.len()),
    ensures
        ({
            let built = state.build_clip_chain(items, spatial_node_index, parent);
            let id = state.built_clip_chain(items.len(), parent);
            &&& built.wf()
            &&& clip_id_within(id, built.clip_nodes.len())
            &&& clip_chain_len(built.clip_nodes, id) == items.len() + clip_chain_len(
                state.clip_nodes,
                parent,
            )
        }),
    decreases items.len(),
{
    if items.len() > 0 {
        let next = state.add_clip_item(items[0].0, items[0].1, spatial_node_index, parent);
        let node = next.clip_nodes.last();
        lemma_add_clip_node_wf(state, next, node);
        lemma_build_clip_chain_wf(
            next,
            items.drop_first(),
            spatial_node_index,
            state.next_clip(),
        );
        assert(state.built_clip_chain(items.len(), parent) == next.built_clip_chain(
            (items.len() - 1) as nat,
            state.next_clip(),
        ));
    }
}

/// An id that is mapped to a stored clip keeps the invariant.
pub proof fn lemma_map_clip_wf(
    state: FlattenerState,
    id: ClipId,
    clip_chain_id: ClipChainId,
    count: usize,
)
    requires
        state.wf(),
        clip_id_within(clip_chain_id, state.clip_nodes.len()),
        clip_chain_len(state.clip_nodes, clip_chain_id) >= count,
    ensures
        (FlattenerState {
            mapping: state.mapping.add_clip_chain(id, clip_chain_id, count),
            ..state
        }).wf(),
{
    let after = state.mapping.add_clip_chain(id, clip_chain_id, count);
    assert forall|other: ClipId| after.clips.contains_key(other) implies clip_stored(
        #[trigger] after.clips[other],
        state.clip_nodes,
    ) by {
        if other != id {
            assert(after.clips[other] == state.mapping.clips[other]);
        }
    }
}

/// The clip of a display item keeps the invariant.
pub proof fn lemma_add_clip_wf(
    state: FlattenerState,
    new_node_id: ClipId,
    space_and_clip: SpaceAndClipInfo,
    clip_region: ClipRegion,
)
    requires
        state.wf(),
        state.mapping.clips.contains_key(space_and_clip.clip_id),
        state.tree.len() <= usize::MAX,
        state.add_clip_node(new_node_id, space_and_clip, clip_region).clip_nodes.len()
            <= usize::MAX,
    ensures
        state.add_clip_node(new_node_id, space_and_clip, clip_region).wf(),
{
    let parent = state.mapping.clips[space_and_clip.clip_id].id;
    assert(clip_stored(state.mapping.clips[space_and_clip.clip_id], state.clip_nodes));
    let spatial_node = state.mapping.spatial[space_and_clip.spatial_id];
    let items = region_items(clip_region);
    lemma_build_clip_chain_keeps(state, items, spatial_node, parent);
    lemma_build_clip_chain_wf(state, items, spatial_node, parent);
    lemma_map_clip_wf(
        state.build_clip_chain(items, spatial_node, parent),
        new_node_id,
        state.built_clip_chain(items.len(), parent),
        items.len() as usize,
    );
}

/// Copying nodes of the clip store adds as many, and changes nothing else.
pub proof fn lemma_copy_clip_nodes_keeps(
    state: FlattenerState,
    from: ClipChainId,
    count: nat,
    parent: ClipChainId,
)
    ensures
        ({
            let copied = state.copy_clip_nodes(from, count, parent);
            &&& copied == (FlattenerState { clip_nodes: copied.clip_nodes, ..state })
            &&& copied.clip_nodes.len() == state.clip_nodes.len() + count
        }),
    decreases count,
{
    if count > 0 {
        let node = state.clip_nodes[from->Node_0 as int];
        lemma_copy_clip_nodes_keeps(
            FlattenerState {
                clip_nodes: state.clip_nodes.push(
                    ClipChainNode { parent_clip_chain_id: parent, ..node },
                ),
                ..state
            },
            node.parent_clip_chain_id,
            (count - 1) as nat,
            state.next_clip(),
        );
    }
}

/// Copying the nodes of a stored chain, to another one, keeps the invariant.
pub proof fn lemma_copy_clip_nodes_wf(
    state: FlattenerState,
    from: ClipChainId,
    count: nat,
    parent: ClipChainId,
)
    requires
        state.wf(),
        state.clip_nodes.len() + count <= usize::MAX,
        state.tree.len() <= usize::MAX,
        clip_id_within(from, state.clip_nodes.len()),
        clip_chain_len(state.clip_nodes, from) >= count,
        clip_id_within(parent, state.clip_nodes.len()),
    ensures
        state.copy_clip_nodes(from, count, parent).wf(),
        clip_id_within(
            state.built_clip_chain(count, parent),
            state.copy_clip_nodes(from, count, parent).clip_nodes.len(),
        ),
    decreases count,
{
    if count > 0 {
        let node = state.clip_nodes[from->Node_0 as int];
        let added = ClipChainNode { parent_clip_chain_id: parent, ..node };
        let next = FlattenerState { clip_nodes: state.clip_nodes.push(added), ..state };
        lemma_add_clip_node_wf(state, next, added);
        lemma_clip_chain_len_push(state.clip_nodes, added, node.parent_clip_chain_id);
        lemma_copy_clip_nodes_wf(
            next,
            node.parent_clip_chain_id,
            (count - 1) as nat,
            state.next_clip(),
        );
        assert(state.built_clip_chain(count, parent) == next.built_clip_chain(
            (count - 1) as nat,
            state.next_clip(),
        ));
    }
}

/// Linking clips adds nodes to the clip store, and changes nothing else.
pub proof fn lemma_link_clips_keeps(
    state: FlattenerState,
    clip_ids: Seq<ClipId>,
    parent: ClipChainId,
)
    ensures
        ({
            let linked = state.link_clips(clip_ids, parent);
            &&& linked == (FlattenerState { clip_nodes: linked.clip_nodes, ..state })
            &&& linked.clip_nodes.len() >= state.clip_nodes.len()
        }),
    decreases clip_ids.len(),
{
    if clip_ids.len() > 0 {
        let node = state.mapping.clips[clip_ids[0]];
        lemma_copy_clip_nodes_keeps(state, node.id, node.count as nat, parent);
        lemma_link_clips_keeps(
            state.copy_clip_nodes(node.id, node.count as nat, parent),
            clip_ids.drop_first(),
            state.built_clip_chain(node.count as nat, parent),
        );
    }
}

/// Linking clips that are stored keeps the invariant.
pub proof fn lemma_link_clips_wf(
    state: FlattenerState,
    clip_ids: Seq<ClipId>,
    parent: ClipChainId,
)
    requires
        state.wf(),
        state.tree.len() <= usize::MAX,
        state.link_clips(clip_ids, parent).clip_nodes.len() <= usize::MAX,
        all_clips_known(state, clip_ids),
        clip_id_within(parent, state.clip_nodes.len()),
    ensures
        state.link_clips(clip_ids, parent).wf(),
        clip_id_within(
            state.linked_clips(clip_ids, parent),
            state.link_clips(clip_ids, parent).clip_nodes.len(),
        ),
    decreases clip_ids.len(),
{
    if clip_ids.len() > 0 {
        let node = state.mapping.clips[clip_ids[0]];
        assert(clip_stored(node, state.clip_nodes));
        let copied = state.copy_clip_nodes(node.id, node.count as nat, parent);
        let next = state.built_clip_chain(node.count as nat, parent);
        let rest = clip_ids.drop_first();
        lemma_copy_clip_nodes_keeps(state, node.id, node.count as nat, parent);
        lemma_link_clips_keeps(copied, rest, next);
        lemma_copy_clip_nodes_wf(state, node.id, node.count as nat, parent);
        assert forall|i: int| 0 <= i < rest.len() implies copied.mapping.clips.contains_key(
            #[trigger] rest[i],
        ) by {
            assert(rest[i] == clip_ids[i + 1]);
        }
        lemma_link_clips_wf(copied, rest, next);
    }
}

/// Whether two stacking contexts have the same properties, and the same part in
/// 3D hierarchies.
pub open spec fn same_kind(a: Context, b: Context) -> bool {
    &&& a.composite_ops == b.composite_ops
    &&& a.transform_style == b.transform_style
    &&& a.create_tile_cache == b.create_tile_cache
    &&& a.context_3d is In == b.context_3d is In
    &&& joins_hierarchy(a) == joins_hierarchy(b)
}

/// Another stacking context in the place of one of the stack keeps the
/// invariant, where it is of the same kind.
pub proof fn lemma_update_context_wf(state: FlattenerState, place: int, sc: Context)
    requires
        state.wf(),
        0 <= place < state.sc_stack.len(),
        context_placed(sc, state.tree.len()),
        same_kind(state.sc_stack[place], sc),
    ensures
        (FlattenerState { sc_stack: state.sc_stack.update(place, sc), ..state }).wf(),
{
    let stack = state.sc_stack;
    let after = stack.update(place, sc);
    assert forall|i: int| 0 <= i < after.len() implies context_placed(
        #[trigger] after[i],
        state.tree.len(),
    ) by {
        assert(context_placed(stack[i], state.tree.len()));
    }
    assert forall|i: int| 0 <= i < after.len() implies #[trigger] hierarchy_whole_at(after, i) by {
        assert(hierarchy_whole_at(stack, i));
    }
}

/// Another stacking context on top of the stack keeps the invariant, where it is
/// of the same kind.
pub proof fn lemma_with_top_wf(state: FlattenerState, sc: Context)
    requires
        state.wf(),
        state.sc_stack.len() > 0,
        context_placed(sc, state.tree.len()),
        same_kind(state.sc_stack.last(), sc),
    ensures
        state.with_top(sc).wf(),
        state.with_top(sc).sc_stack.len() == state.sc_stack.len(),
{
    let last = state.sc_stack.len() - 1;
    assert(state.with_top(sc).sc_stack =~= state.sc_stack.update(last, sc));
    lemma_update_context_wf(state, last, sc);
}

/// An instance that is drawn keeps the invariant.
pub proof fn lemma_draw_wf(state: FlattenerState, instance: PrimitiveInstance)
    requires
        state.wf(),
        state.sc_stack.len() > 0,
        instance.spatial_node_index.index < state.tree.len(),
    ensures
        state.add_primitive_to_draw_list(instance).wf(),
        state.add_primitive_to_draw_list(instance).sc_stack.len() == state.sc_stack.len(),
{
    let top = state.sc_stack.last();
    assert(context_placed(state.sc_stack[state.sc_stack.len() - 1], state.tree.len()));
    let sc = Context { primitives: top.primitives.push(instance), ..top };
    lemma_with_top_wf(state, sc);
}

/// A primitive that is made and drawn keeps the invariant.
pub proof fn lemma_draw_prim_wf<'a>(
    state: FlattenerState<'a>,
    info: LayoutPrimitiveInfo,
    clip_chain_id: ClipChainId,
    clip_and_scroll: ScrollNodeAndClipChain,
    prim: Primitive<'a>,
    offset: LayoutVector2D,
)
    requires
        state.wf(),
        state.sc_stack.len() > 0,
        clip_and_scroll.spatial_node_index.index < state.tree.len(),
    ensures
        ({
            let after = state.add_prim_to_draw_list(
                info,
                clip_chain_id,
                clip_and_scroll,
                prim,
                offset,
            );
            &&& after.wf()
            &&& after == (FlattenerState {
                sc_stack: after.sc_stack,
                requests: after.requests,
                prim_store: after.prim_store,
                hit_testing_runs: after.hit_testing_runs,
                ..state
            })
            &&& after.sc_stack.len() == state.sc_stack.len()
        }),
{
    let made = state.create_primitive(info, prim, offset).add_primitive_to_hit_testing_list(
        info,
        clip_and_scroll,
    );
    lemma_draw_wf(
        made,
        state.created_primitive(info, clip_chain_id, clip_and_scroll.spatial_node_index),
    );
}

/// A primitive that casts no shadow keeps the invariant.
pub proof fn law_add_nonshadowable_primitive_wf<'a>(
    state: FlattenerState<'a>,
    clip_and_scroll: ScrollNodeAndClipChain,
    info: LayoutPrimitiveInfo,
    clip_items: Seq<(LayoutPoint, ClipItemKey)>,
    prim: Primitive<'a>,
    visible: bool,
    offset: LayoutVector2D,
)
    requires
        state.wf(),
        state.sc_stack.len() > 0,
        clip_and_scroll.spatial_node_index.index < state.tree.len(),
        clip_id_within(clip_and_scroll.clip_chain_id, state.clip_nodes.len()),
        state.tree.len() <= usize::MAX,
        state.add_nonshadowable_primitive(
            clip_and_scroll,
            info,
            clip_items,
            prim,
            visible,
            offset,
        ).clip_nodes.len() <= usize::MAX,
    ensures
        ({
            let after = state.add_nonshadowable_primitive(
                clip_and_scroll,
                info,
                clip_items,
                prim,
                visible,
                offset,
            );
            &&& after.wf()
            &&& after.sc_stack.len() == state.sc_stack.len()
            &&& after.pipeline_clip_chain_stack == state.pipeline_clip_chain_stack
        }),
{
    if visible {
        let spatial = clip_and_scroll.spatial_node_index;
        let parent = clip_and_scroll.clip_chain_id;
        let built = state.build_clip_chain(clip_items, spatial, parent);
        lemma_build_clip_chain_keeps(state, clip_items, spatial, parent);
        lemma_build_clip_chain_wf(state, clip_items, spatial, parent);
        lemma_draw_prim_wf(
            built,
            info,
            state.built_clip_chain(clip_items.len(), parent),
            clip_and_scroll,
            prim,
            offset,
        );
    }
}

/// A primitive that can cast a shadow keeps the invariant.
pub proof fn law_add_primitive_wf<'a>(
    state: FlattenerState<'a>,
    clip_and_scroll: ScrollNodeAndClipChain,
    info: LayoutPrimitiveInfo,
    clip_items: Seq<(LayoutPoint, ClipItemKey)>,
    prim: Primitive<'a>,
    visible: bool,
    pending: ShadowItem<'a>,
    offset: LayoutVector2D,
)
    requires
        state.wf(),
        state.sc_stack.len() > 0,
        clip_and_scroll.spatial_node_index.index < state.tree.len(),
        clip_id_within(clip_and_scroll.clip_chain_id, state.clip_nodes.len()),
        state.tree.len() <= usize::MAX,
        state.add_primitive(
            clip_and_scroll,
            info,
            clip_items,
            prim,
            visible,
            pending,
            offset,
        ).clip_nodes.len() <= usize::MAX,
        pending_place(pending) == clip_and_scroll.spatial_node_index,
    ensures
        ({
            let after = state.add_primitive(
                clip_and_scroll,
                info,
                clip_items,
                prim,
                visible,
                pending,
                offset,
            );
            &&& after.wf()
            &&& after.sc_stack.len() == state.sc_stack.len()
            &&& after.pipeline_clip_chain_stack == state.pipeline_clip_chain_stack
        }),
{
    if state.pending_shadow_items.len() == 0 {
        law_add_nonshadowable_primitive_wf(
            state,
            clip_and_scroll,
            info,
            clip_items,
            prim,
            visible,
            offset,
        );
    } else {
        lemma_add_pending_wf(state, pending);
    }
}

/// A pending item that is placed keeps the invariant.
pub proof fn lemma_add_pending_wf<'a>(state: FlattenerState<'a>, pending: ShadowItem<'a>)
    requires
        state.wf(),
        pending_place(pending).index < state.tree.len(),
    ensures
        (FlattenerState {
            pending_shadow_items: state.pending_shadow_items.push(pending),
            ..state
        }).wf(),
{
    let after = state.pending_shadow_items.push(pending);
    assert forall|i: int| 0 <= i < after.len() implies pending_place(#[trigger] after[i]).index
        < state.tree.len() by {
        if i < state.pending_shadow_items.len() {
            assert(after[i] == state.pending_shadow_items[i]);
        }
    }
}

/// An instance that is added to a 3D hierarchy keeps the invariant.
pub proof fn lemma_add_to_3d_root_wf(state: FlattenerState, instance: PrimitiveInstance)
    requires
        state.wf(),
    ensures
        state.add_primitive_instance_to_3d_root(instance).wf(),
        state.add_primitive_instance_to_3d_root(instance).sc_stack.len() == state.sc_stack.len(),
{
    let place = root_3d_place(state.sc_stack);
    if 0 <= place < state.sc_stack.len() {
        let sc = state.sc_stack[place];
        assert(context_placed(sc, state.tree.len()));
        lemma_update_context_wf(state, place, add_to_3d_root(sc, instance));
    }
}

/// The picture of the flat children of the topmost stacking context keeps the
/// invariant, and leaves in place which stacking contexts are preserve-3d.
pub proof fn lemma_cut_flat_items_wf(state: FlattenerState)
    requires
        state.wf(),
    ensures
        state.cut_flat_items().wf(),
        state.cut_flat_items().sc_stack.len() == state.sc_stack.len(),
        state.sc_stack.len() > 0 ==> state.cut_flat_items().sc_stack.last().is_3d()
            == state.sc_stack.last().is_3d(),
{
    if state.sc_stack.len() > 0 && state.sc_stack.last().has_flat_items() {
        let top = state.sc_stack.last();
        assert(context_placed(state.sc_stack[state.sc_stack.len() - 1], state.tree.len()));
        let emptied = Context { primitives: Seq::empty(), ..top };
        lemma_with_top_wf(state, emptied);
        let next = state.with_top(emptied).add_picture(
            top.flat_items_picture(),
            top.is_backface_visible,
            PictureCompositeKey::Identity,
        );
        lemma_add_to_3d_root_wf(
            next,
            state.added_picture(top.clip_chain_id, top.spatial_node_index),
        );
    }
}

/// A stacking context that begins at a node of the tree keeps the invariant. The
/// first one has to be plain.
pub proof fn law_push_stacking_context_wf(
    state: FlattenerState,
    pipeline_id: PipelineId,
    composite_ops: CompositeOps<Seq<FilterOp>>,
    transform_style: TransformStyle,
    is_backface_visible: bool,
    create_tile_cache: bool,
    spatial_node_index: SpatialNodeIndex,
    clip_chain_id: ClipChainId,
    requested_raster_space: RasterSpace,
)
    requires
        state.wf(),
        spatial_node_index.index < state.tree.len(),
        state.sc_stack.len() == 0 ==> composite_ops.is_empty() && transform_style is Flat
            && !create_tile_cache,
    ensures
        ({
            let after = state.push_stacking_context(
                pipeline_id,
                composite_ops,
                transform_style,
                is_backface_visible,
                create_tile_cache,
                spatial_node_index,
                clip_chain_id,
                requested_raster_space,
            );
            &&& after.wf()
            &&& after.sc_stack.len() == state.sc_stack.len() + 1
            &&& after.pipeline_clip_chain_stack == state.pipeline_clip_chain_stack
        }),
{
    lemma_cut_flat_items_wf(state);
    let cut = state.cut_flat_items();
    let sc = state.new_stacking_context(
        pipeline_id,
        composite_ops,
        transform_style,
        is_backface_visible,
        create_tile_cache,
        spatial_node_index,
        clip_chain_id,
        requested_raster_space,
    );
    let after = cut.sc_stack.push(sc);
    assert forall|i: int| 0 <= i < after.len() implies context_placed(
        #[trigger] after[i],
        state.tree.len(),
    ) by {
        if i < cut.sc_stack.len() {
            assert(context_placed(cut.sc_stack[i], state.tree.len()));
        }
    }
    assert forall|i: int| 0 <= i < after.len() implies #[trigger] hierarchy_whole_at(after, i) by {
        if i < cut.sc_stack.len() {
            assert(hierarchy_whole_at(cut.sc_stack, i));
        }
    }
}

/// The stack without its top keeps the invariant.
pub proof fn lemma_pop_top_wf(state: FlattenerState)
    requires
        state.wf(),
        state.sc_stack.len() > 0,
    ensures
        (FlattenerState { sc_stack: state.sc_stack.drop_last(), ..state }).wf(),
{
    let after = state.sc_stack.drop_last();
    assert forall|i: int| 0 <= i < after.len() implies context_placed(
        #[trigger] after[i],
        state.tree.len(),
    ) by {
        assert(context_placed(state.sc_stack[i], state.tree.len()));
    }
    assert forall|i: int| 0 <= i < after.len() implies #[trigger] hierarchy_whole_at(after, i) by {
        assert(hierarchy_whole_at(state.sc_stack, i));
    }
}

/// A stacking context can always begin.
pub proof fn law_can_push(state: FlattenerState)
    requires
        state.wf(),
        state.sc_stack.len() > 0,
        state.sc_stack.last().has_flat_items(),
    ensures
        !meets_flat_context(state.sc_stack),
{
    assert(hierarchy_whole_at(state.sc_stack, state.sc_stack.len() - 1));
    law_3d_root_found(state.sc_stack);
}

/// The topmost stacking context can always be ended, unless a shadow is active
/// and it is not a no-op.
pub proof fn law_can_pop(state: FlattenerState, node_is_identity: bool)
    requires
        state.wf(),
        state.sc_stack.len() > 0,
        state.pipeline_clip_chain_stack.len() > 0,
        state.pending_shadow_items.len() == 0 || state.top_is_redundant(node_is_identity),
    ensures
        state.can_pop(node_is_identity),
{
    let last = state.sc_stack.len() - 1;
    assert(context_placed(state.sc_stack[last], state.tree.len()));
    lemma_pop_top_wf(state);
    let below = state.sc_stack.drop_last();
    if below.len() > 0 && below.last().is_3d() {
        assert(hierarchy_whole_at(below, below.len() - 1));
        law_3d_root_found(below);
    }
}

/// A stacking context that ends keeps the invariant.
pub proof fn law_pop_stacking_context_wf(state: FlattenerState, node_is_identity: bool)
    requires
        state.wf(),
        state.sc_stack.len() > 0,
    ensures
        state.pop_stacking_context(node_is_identity).wf(),
        state.pop_stacking_context(node_is_identity).sc_stack.len() == state.sc_stack.len() - 1,
        state.pop_stacking_context(node_is_identity).pipeline_clip_chain_stack
            == state.pipeline_clip_chain_stack,
{
    let sc = state.sc_stack.last();
    let count = state.sc_stack.len();
    assert(context_placed(state.sc_stack[count - 1], state.tree.len()));
    lemma_pop_top_wf(state);
    let below = FlattenerState { sc_stack: state.sc_stack.drop_last(), ..state };
    if state.top_is_redundant(node_is_identity) {
        let parent = below.sc_stack.last();
        assert(context_placed(below.sc_stack[count - 2], state.tree.len()));
        let joined = Context { primitives: parent.primitives + sc.primitives, ..parent };
        assert forall|i: int| 0 <= i < joined.primitives.len() implies (
        #[trigger] joined.primitives[i]).spatial_node_index.index < state.tree.len() by {
            if i < parent.primitives.len() {
                assert(joined.primitives[i] == parent.primitives[i]);
            } else {
                assert(joined.primitives[i] == sc.primitives[i - parent.primitives.len()]);
            }
        }
        lemma_with_top_wf(below, joined);
    } else {
        let parent_is_empty = below.sc_stack.len() == 0
            || below.sc_stack.last().primitives.len() == 0;
        let cached = if sc.create_tile_cache {
            below.setup_picture_caching(sc.primitives)
        } else {
            below
        };
        let prims = if sc.create_tile_cache {
            below.cached_primitives(sc.primitives)
        } else {
            sc.primitives
        };
        let cached_sc = Context { primitives: prims, ..sc };
        lemma_context_pictures_keep(cached, cached_sc, parent_is_empty);
        let chain = cached.context_pictures(cached_sc, parent_is_empty);
        let instance = PrimitiveInstance {
            clip_chain_id: sc.clip_chain_id,
            ..chain.outer.instance
        };
        lemma_outer_instance_place(cached, cached_sc, parent_is_empty);
        assert(instance.spatial_node_index == sc.spatial_node_index);
        if below.sc_stack.len() > 0 {
            let parent = below.sc_stack.last();
            assert(context_placed(below.sc_stack[count - 2], state.tree.len()));
            if parent.is_3d() {
                lemma_add_to_3d_root_wf(chain.state, instance);
            } else {
                let has_mix_blend = sc.composite_ops.mix_blend_mode is Some && !parent_is_empty;
                let after = chain.state.attach_picture(
                    instance,
                    chain.outer.pic_index,
                    has_mix_blend,
                );
                lemma_with_top_wf(chain.state, after.sc_stack.last());
            }
        }
    }
}

/// The outermost picture of a stacking context is placed where that is.
pub proof fn lemma_outer_instance_place(state: FlattenerState, sc: Context, parent_is_empty: bool)
    ensures
        state.context_pictures(sc, parent_is_empty).outer.instance.spatial_node_index
            == sc.spatial_node_index,
{
    let inner = state.add_context_picture(
        sc,
        leaf_picture(sc),
        PictureCompositeKey::Of(leaf_composite_mode(sc)),
    ).with_3d_container(sc);
    lemma_with_filters_place(inner, sc, sc.composite_ops.filters);
}

/// The outermost of the pictures for filters is placed where the stacking
/// context is.
proof fn lemma_with_filters_place(chain: PictureChain, sc: Context, filters: Seq<FilterOp>)
    requires
        chain.outer.instance.spatial_node_index == sc.spatial_node_index,
    ensures
        chain.with_filters(sc, filters).outer.instance.spatial_node_index == sc.spatial_node_index,
    decreases filters.len(),
{
    if filters.len() > 0 {
        lemma_with_filters_place(
            chain.wrapped(
                sc,
                PictureCompositeMode::Filter(SanitizedFilter { filter: filters[0] }),
                true,
            ),
            sc,
            filters.drop_first(),
        );
    }
}

/// The primitives that a shadow shows change nothing but the primitive store and
/// the interned data.
pub proof fn lemma_add_shadow_prims_keep<'a>(
    state: FlattenerState<'a>,
    shadow: Shadow,
    items: Seq<ShadowItem<'a>>,
    offset: LayoutVector2D,
)
    ensures
        ({
            let after = state.add_shadow_prims(shadow, items, offset);
            after == (FlattenerState {
                prim_store: after.prim_store,
                requests: after.requests,
                ..state
            })
        }),
    decreases items.len(),
{
    if items.len() > 0 {
        lemma_add_shadow_prims_keep(state, shadow, items.drop_last(), offset);
    }
}

/// Drawing pending items that are placed keeps the invariant.
pub proof fn lemma_draw_pending_wf<'a>(
    state: FlattenerState<'a>,
    items: Seq<ShadowItem<'a>>,
    offset: LayoutVector2D,
)
    requires
        state.wf(),
        state.sc_stack.len() > 0,
        pending_placed(items, state.tree.len()),
    ensures
        ({
            let after = state.draw_pending(items, offset);
            &&& after.wf()
            &&& after == (FlattenerState {
                sc_stack: after.sc_stack,
                prim_store: after.prim_store,
                requests: after.requests,
                hit_testing_runs: after.hit_testing_runs,
                ..state
            })
            &&& after.sc_stack.len() == state.sc_stack.len()
        }),
    decreases items.len(),
{
    if items.len() > 0 {
        let rest = items.drop_first();
        assert(pending_place(items[0]).index < state.tree.len());
        assert forall|i: int| 0 <= i < rest.len() implies pending_place(#[trigger] rest[i]).index
            < state.tree.len() by {
            assert(rest[i] == items[i + 1]);
        }
        match items[0] {
            ShadowItem::Shadow(pending) => {
                lemma_add_shadow_prims_keep(state, pending.shadow, rest, offset);
                let made = state.add_shadow_prims(pending.shadow, rest, offset);
                let prims = state.added_shadow_prims(pending.shadow, rest, offset);
                if prims.len() > 0 {
                    let added = made.add_picture(
                        made.shadow_picture(pending, prims),
                        true,
                        PictureCompositeKey::Of(Some(shadow_composite_mode(pending.shadow))),
                    );
                    lemma_draw_wf(
                        added,
                        made.added_picture(
                            pending.clip_and_scroll.clip_chain_id,
                            pending.clip_and_scroll.spatial_node_index,
                        ),
                    );
                }
                lemma_draw_pending_wf(state.draw_shadow(pending, rest, offset), rest, offset);
            },
            item => {
                let parts = item.parts()->0;
                if parts.visible {
                    lemma_draw_prim_wf(
                        state,
                        parts.info,
                        parts.clip_and_scroll.clip_chain_id,
                        parts.clip_and_scroll,
                        parts.key,
                        offset,
                    );
                }
                lemma_draw_pending_wf(
                    state.add_shadow_prim_to_draw_list(parts, offset),
                    rest,
                    offset,
                );
            },
        }
    }
}

/// Ending all shadows keeps the invariant, and leaves nothing pending.
pub proof fn law_pop_all_shadows_wf(state: FlattenerState, offset: LayoutVector2D)
    requires
        state.wf(),
        state.sc_stack.len() > 0,
    ensures
        state.pop_all_shadows(offset).wf(),
        state.pop_all_shadows(offset).pending_shadow_items.len() == 0,
        state.pop_all_shadows(offset).sc_stack.len() == state.sc_stack.len(),
        state.pop_all_shadows(offset).pipeline_clip_chain_stack == state.pipeline_clip_chain_stack,
{
    lemma_draw_pending_wf(
        FlattenerState { pending_shadow_items: Seq::empty(), ..state },
        state.pending_shadow_items,
        offset,
    );
}

} // verus!
