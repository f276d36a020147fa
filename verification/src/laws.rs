//! What holds of the flattening of a scene as a whole.
use vstd::prelude::*;

use crate::caching::{lemma_scrolled_until, lemma_unscrolled_before};
use crate::clip_store::{clip_id_within, clip_nodes_ordered, ClipChainNode, ClipItemKey};
use crate::contexts::lemma_context_pictures_keep;
use crate::display_list::{DisplayItem, StackingContext};
use crate::hit_test::{hit_order, law_hit_order_append, HitTestingItem};
use crate::ids::{
    root_spatial_node_index, ClipChainId, ClipId, PictureIndex, PipelineId, RequestIndex,
    ScrollNodeAndClipChain, SpatialId, SpatialNodeIndex,
};
use crate::items::{linear_gradient, runs_backwards};
use crate::layout::{ColorF, F32, LayoutPoint, LayoutSize, LayoutVector2D, PointF};
use crate::mapper::{ClipNode, Mapping};
use crate::picture::{
    FilterOp, Instances, Picture3DContext, PictureCompositeKey, PictureCompositeMode,
    PrimitiveInstance, PrimitiveInstanceKind, PrimitiveRecord, RasterSpace,
    SanitizedFilter,
};
use crate::primitives::{
    ExtendMode, GradientStop, InternRequest, LayoutPrimitiveInfo, NinePatchDescriptor, Primitive,
    Shadow,
};
use crate::shadows::{PendingShadow, ShadowItem};
use crate::soundness::{
    hierarchy_whole_at, law_3d_root_found, lemma_add_shadow_prims_keep,
    lemma_copy_clip_nodes_keeps, lemma_link_clips_keeps,
};
use crate::spatial_tree::{
    is_explicit_scroll_frame, scroll_root, spatial_nodes_ordered, SpatialNode, TransformStyle,
};
use crate::stacking_context::{picture_instance, CompositeOps, Context};
use crate::state::{
    caching_cut, context_picture, is_scrolled, leaf_composite_mode, leaf_picture, root_3d_place,
    several_scroll_roots, FlattenerState, PictureChain,
};
use crate::traversal::{item_clip_and_scroll, stacking_context_empty, Flattening};

verus! {

/// A clip that was mapped is found, and mapping it changes no other id.
pub proof fn law_mapped_clip_found(
    mapping: Mapping,
    id: ClipId,
    index: ClipChainId,
    count: usize,
    other: ClipId,
    spatial: SpatialId,
)
    ensures
        ({
            let after = mapping.add_clip_chain(id, index, count);
            &&& after.clips.contains_key(id)
            &&& after.clips[id] == ClipNode { id: index, count }
            &&& other != id ==> after.clips.contains_key(other) == mapping.clips.contains_key(other)
            &&& other != id && mapping.clips.contains_key(other) ==> after.clips[other]
                == mapping.clips[other]
            &&& after.spatial == mapping.spatial
        }),
{
}

/// A positioning node that was mapped is found, and mapping it changes no other
/// id.
pub proof fn law_mapped_spatial_node_found(
    mapping: Mapping,
    id: SpatialId,
    index: SpatialNodeIndex,
    other: SpatialId,
)
    ensures
        ({
            let after = mapping.map_spatial_node(id, index);
            &&& after.spatial.contains_key(id)
            &&& after.spatial[id] == index
            &&& other != id ==> after.spatial.contains_key(other) == mapping.spatial.contains_key(
                other,
            )
            &&& other != id && mapping.spatial.contains_key(other) ==> after.spatial[other]
                == mapping.spatial[other]
            &&& after.clips == mapping.clips
        }),
{
}

/// A list without clip items leaves everything as it is, and gives the parent
/// clip chain itself.
pub proof fn law_empty_clip_chain(
    state: FlattenerState,
    spatial_node_index: SpatialNodeIndex,
    parent: ClipChainId,
)
    ensures
        state.build_clip_chain(Seq::empty(), spatial_node_index, parent) == state,
        state.built_clip_chain(0, parent) == parent,
{
}

/// The way from a node of the positioning tree up to its root, both ends
/// included.
pub open spec fn path_to_root(nodes: Seq<SpatialNode>, node: SpatialNodeIndex) -> Seq<
    SpatialNodeIndex,
>
    decreases node.index,
{
    match nodes[node.index as int].parent {
        Some(parent) => if node != root_spatial_node_index() && parent.index < node.index {
            path_to_root(nodes, parent).push(node)
        } else {
            seq![node]
        },
        None => seq![node],
    }
}

/// The scroll root of a node is the root of the tree, or an explicit scroll
/// frame on the way to it; it is the root only if there is no such frame below
/// the root on the way, and no explicit scroll frame comes between it and the
/// root.
pub proof fn law_scroll_root_is_outermost(nodes: Seq<SpatialNode>, node: SpatialNodeIndex)
    requires
        spatial_nodes_ordered(nodes),
        node.index < nodes.len(),
    ensures
        ({
            let path = path_to_root(nodes, node);
            let root = scroll_root(nodes, node);
            &&& path.len() > 0 && path[0] == root_spatial_node_index() && path.last() == node
            &&& root == root_spatial_node_index() ==> forall|i: int|
                0 < i < path.len() ==> !is_explicit_scroll_frame(
                    nodes[(#[trigger] path[i]).index as int],
                )
            &&& root != root_spatial_node_index() ==> exists|k: int|
                {
                    &&& 0 < k < path.len()
                    &&& #[trigger] path[k] == root
                    &&& is_explicit_scroll_frame(nodes[root.index as int])
                    &&& forall|i: int|
                        0 < i < k ==> !is_explicit_scroll_frame(
                            nodes[(#[trigger] path[i]).index as int],
                        )
                }
        }),
    decreases node.index,
{
    let path = path_to_root(nodes, node);
    let root = scroll_root(nodes, node);
    if node != root_spatial_node_index() {
        assert(nodes[node.index as int].parent is Some);
        let parent = nodes[node.index as int].parent->0;
        let above = path_to_root(nodes, parent);
        law_scroll_root_is_outermost(nodes, parent);
        assert(path == above.push(node));
        assert(path[0] == above[0]);
        if scroll_root(nodes, parent) != root_spatial_node_index() {
            let k = choose|k: int|
                {
                    &&& 0 < k < above.len()
                    &&& #[trigger] above[k] == root
                    &&& is_explicit_scroll_frame(nodes[root.index as int])
                    &&& forall|i: int|
                        0 < i < k ==> !is_explicit_scroll_frame(
                            nodes[(#[trigger] above[i]).index as int],
                        )
                };
            assert(path[k] == root);
            assert forall|i: int| 0 < i < k implies !is_explicit_scroll_frame(
                nodes[(#[trigger] path[i]).index as int],
            ) by {
                assert(path[i] == above[i]);
            }
        } else {
            assert forall|i: int| 0 < i < above.len() implies !is_explicit_scroll_frame(
                nodes[(#[trigger] path[i]).index as int],
            ) by {
                assert(path[i] == above[i]);
            }
            if is_explicit_scroll_frame(nodes[node.index as int]) {
                assert(path[above.len() as int] == root);
            }
        }
    }
}

/// Picture caching loses, adds and reorders nothing: with the cached instances
/// in the place of their picture, the list is what it was.
pub proof fn law_caching_keeps_order(state: FlattenerState, prims: Instances)
    requires
        state.caches(prims),
    ensures
        ({
            let cut = caching_cut(state.tree, prims);
            let cached = state.cached_primitives(prims);
            let place = cut.preceding.len() as int;
            let picture = state.setup_picture_caching(prims).prim_store.pictures.last();
            &&& 0 <= place < cached.len()
            &&& cached[place] == state.added_picture(ClipChainId::Unclipped, cut.scroll_root)
            &&& picture.prim_list == cut.cached
            &&& cached.subrange(0, place) + picture.prim_list + cached.subrange(
                place + 1,
                cached.len() as int,
            ) == prims
        }),
{
    let cut = caching_cut(state.tree, prims);
    let cached = state.cached_primitives(prims);
    let place = cut.preceding.len() as int;
    lemma_unscrolled_before(state.tree, prims);
    lemma_scrolled_until(state.tree, prims);
    assert(cached.subrange(0, place) =~= cut.preceding);
    assert(cached.subrange(place + 1, cached.len() as int) =~= cut.trailing);
    assert(cut.preceding + cut.cached + cut.trailing =~= prims);
}

/// Picture caching puts into the cache every instance that scrolls, and they all
/// scroll with the scroll root of the cache.
pub proof fn law_caching_takes_what_scrolls(tree: Seq<SpatialNode>, prims: Instances, i: int)
    requires
        !several_scroll_roots(tree, prims),
        0 <= i < prims.len(),
        is_scrolled(tree, prims[i]),
    ensures
        ({
            let cut = caching_cut(tree, prims);
            let place = i - cut.preceding.len();
            &&& 0 <= place < cut.cached.len()
            &&& cut.cached[place] == prims[i]
            &&& scroll_root(tree, prims[i].spatial_node_index) == cut.scroll_root
        }),
{
    lemma_unscrolled_before(tree, prims);
    lemma_scrolled_until(tree, prims);
}

/// A clip item, as it stands in a clip chain: its data, where it is, and what it
/// is placed relative to.
pub type ChainItem = (RequestIndex, LayoutPoint, SpatialNodeIndex);

/// The clip items of a chain, from its last node up to its root.
pub open spec fn chain_items(nodes: Seq<ClipChainNode>, id: ClipChainId) -> Seq<ChainItem>
    decreases
            match id {
                ClipChainId::Node(i) => i + 1,
                _ => 0,
            },
{
    match id {
        ClipChainId::Node(i) => if i < nodes.len() && clip_id_within(
            nodes[i as int].parent_clip_chain_id,
            i as nat,
        ) {
            let node = nodes[i as int];
            seq![(node.handle, node.local_pos, node.spatial_node_index)] + chain_items(
                nodes,
                node.parent_clip_chain_id,
            )
        } else {
            Seq::empty()
        },
        _ => Seq::empty(),
    }
}

/// A node that is added to the clip store changes no chain in it.
pub proof fn law_stored_chains_stay(nodes: Seq<ClipChainNode>, node: ClipChainNode, id: ClipChainId)
    requires
        clip_id_within(id, nodes.len()),
    ensures
        chain_items(nodes.push(node), id) == chain_items(nodes, id),
    decreases
            match id {
                ClipChainId::Node(i) => i + 1,
                _ => 0,
            },
{
    if let ClipChainId::Node(i) = id {
        if clip_id_within(nodes[i as int].parent_clip_chain_id, i as nat) {
            law_stored_chains_stay(nodes, node, nodes[i as int].parent_clip_chain_id);
        }
    }
}

/// The items of a clip, as a chain that is built of them has them: the last
/// first.
pub open spec fn built_items(
    state: FlattenerState,
    items: Seq<(LayoutPoint, ClipItemKey)>,
    spatial_node_index: SpatialNodeIndex,
) -> Seq<ChainItem> {
    Seq::new(
        items.len(),
        |k: int|
            (
                RequestIndex { index: (state.requests.len() + items.len() - 1 - k) as usize },
                items[items.len() - 1 - k].0,
                spatial_node_index,
            ),
    )
}

/// A clip chain that is built consists of its own items, and then of what its
/// parent consists of.
pub proof fn law_built_chain_items(
    state: FlattenerState,
    items: Seq<(LayoutPoint, ClipItemKey)>,
    spatial_node_index: SpatialNodeIndex,
    parent: ClipChainId,
)
    requires
        clip_id_within(parent, state.clip_nodes.len()),
        state.clip_nodes.len() + items.len() <= usize::MAX,
    ensures
        chain_items(
            state.build_clip_chain(items, spatial_node_index, parent).clip_nodes,
            state.built_clip_chain(items.len(), parent),
        ) == built_items(state, items, spatial_node_index) + chain_items(state.clip_nodes, parent),
    decreases items.len(),
{
    if items.len() == 0 {
        assert(built_items(state, items, spatial_node_index) + chain_items(
            state.clip_nodes,
            parent,
        ) =~= chain_items(state.clip_nodes, parent));
    } else {
        let next = state.add_clip_item(items[0].0, items[0].1, spatial_node_index, parent);
        let node = next.clip_nodes.last();
        let rest = items.drop_first();
        let id = state.next_clip();
        law_stored_chains_stay(state.clip_nodes, node, parent);
        assert(next.clip_nodes[state.clip_nodes.len() as int] == node);
        assert(chain_items(next.clip_nodes, id) == seq![
            (node.handle, node.local_pos, node.spatial_node_index),
        ] + chain_items(state.clip_nodes, parent));
        law_built_chain_items(next, rest, spatial_node_index, id);
        assert(state.built_clip_chain(items.len(), parent) == next.built_clip_chain(
            rest.len(),
            id,
        ));
        assert(built_items(next, rest, spatial_node_index) + (seq![
            (node.handle, node.local_pos, node.spatial_node_index),
        ] + chain_items(state.clip_nodes, parent)) =~= built_items(
            state,
            items,
            spatial_node_index,
        ) + chain_items(state.clip_nodes, parent));
    }
}

/// The items that a clip itself contributed to its chain.
pub open spec fn own_items(nodes: Seq<ClipChainNode>, node: ClipNode) -> Seq<ChainItem> {
    chain_items(nodes, node.id).take(node.count as int)
}

/// A chain to which nodes are copied consists of their items, in the opposite
/// order, and then of what it consisted of before.
pub proof fn law_copied_chain_items(
    state: FlattenerState,
    from: ClipChainId,
    count: nat,
    parent: ClipChainId,
)
    requires
        clip_nodes_ordered(state.clip_nodes),
        clip_id_within(from, state.clip_nodes.len()),
        clip_id_within(parent, state.clip_nodes.len()),
        chain_items(state.clip_nodes, from).len() >= count,
        state.clip_nodes.len() + count <= usize::MAX,
    ensures
        ({
            let copied = state.copy_clip_nodes(from, count, parent);
            &&& chain_items(copied.clip_nodes, state.built_clip_chain(count, parent))
                == chain_items(state.clip_nodes, from).take(count as int).reverse() + chain_items(
                state.clip_nodes,
                parent,
            )
            &&& clip_nodes_ordered(copied.clip_nodes)
            &&& clip_id_within(state.built_clip_chain(count, parent), copied.clip_nodes.len())
            &&& copied.clip_nodes.len() == state.clip_nodes.len() + count
            &&& copied.mapping == state.mapping
            &&& forall|id: ClipChainId|
                clip_id_within(id, state.clip_nodes.len()) ==> #[trigger] chain_items(
                    copied.clip_nodes,
                    id,
                ) == chain_items(state.clip_nodes, id)
        }),
    decreases count,
{
    let nodes = state.clip_nodes;
    let copied = state.copy_clip_nodes(from, count, parent);
    if count == 0 {
        assert(chain_items(nodes, from).take(0).reverse() + chain_items(nodes, parent)
            =~= chain_items(nodes, parent));
    } else {
        let node = nodes[from->Node_0 as int];
        let added = ClipChainNode { parent_clip_chain_id: parent, ..node };
        let next = FlattenerState { clip_nodes: nodes.push(added), ..state };
        let id = state.next_clip();
        let above = node.parent_clip_chain_id;
        assert forall|i: int| 0 <= i < next.clip_nodes.len() implies clip_id_within(
            (#[trigger] next.clip_nodes[i]).parent_clip_chain_id,
            i as nat,
        ) by {
            if i < nodes.len() {
                assert(next.clip_nodes[i] == nodes[i]);
            }
        }
        law_stored_chains_stay(nodes, added, parent);
        law_stored_chains_stay(nodes, added, above);
        assert(next.clip_nodes[nodes.len() as int] == added);
        law_copied_chain_items(next, above, (count - 1) as nat, id);
        assert(state.built_clip_chain(count, parent) == next.built_clip_chain(
            (count - 1) as nat,
            id,
        ));
        let item = (node.handle, node.local_pos, node.spatial_node_index);
        assert(chain_items(nodes, from) == seq![item] + chain_items(nodes, above));
        assert(chain_items(nodes, above).take(count - 1).reverse() + (seq![item] + chain_items(
            nodes,
            parent,
        )) =~= chain_items(nodes, from).take(count as int).reverse() + chain_items(nodes, parent));
        assert forall|other: ClipChainId|
            clip_id_within(other, nodes.len()) implies #[trigger] chain_items(
            copied.clip_nodes,
            other,
        ) == chain_items(nodes, other) by {
            law_stored_chains_stay(nodes, added, other);
            assert(chain_items(next.clip_nodes, other) == chain_items(nodes, other));
        }
    }
}

/// What the listed clips consist of, on top of what their parent consists of.
pub open spec fn linked_items(
    state: FlattenerState,
    clip_ids: Seq<ClipId>,
    base: Seq<ChainItem>,
) -> Seq<ChainItem>
    decreases clip_ids.len(),
{
    if clip_ids.len() == 0 {
        base
    } else {
        linked_items(
            state,
            clip_ids.drop_first(),
            own_items(state.clip_nodes, state.mapping.clips[clip_ids[0]]).reverse() + base,
        )
    }
}

/// The items of mapped clips depend on nothing but the stored chains.
proof fn lemma_linked_items_same(
    a: FlattenerState,
    b: FlattenerState,
    clip_ids: Seq<ClipId>,
    base: Seq<ChainItem>,
)
    requires
        a.mapping == b.mapping,
        forall|i: int|
            0 <= i < clip_ids.len() ==> own_items(
                a.clip_nodes,
                a.mapping.clips[#[trigger] clip_ids[i]],
            ) == own_items(b.clip_nodes, b.mapping.clips[clip_ids[i]]),
    ensures
        linked_items(a, clip_ids, base) == linked_items(b, clip_ids, base),
    decreases clip_ids.len(),
{
    if clip_ids.len() > 0 {
        let rest = clip_ids.drop_first();
        assert forall|i: int| 0 <= i < rest.len() implies own_items(
            a.clip_nodes,
            a.mapping.clips[#[trigger] rest[i]],
        ) == own_items(b.clip_nodes, b.mapping.clips[rest[i]]) by {
            assert(rest[i] == clip_ids[i + 1]);
        }
        lemma_linked_items_same(
            a,
            b,
            rest,
            own_items(a.clip_nodes, a.mapping.clips[clip_ids[0]]).reverse() + base,
        );
    }
}

/// Whether a clip and all the nodes that it contributed are stored.
pub open spec fn clip_whole(state: FlattenerState, id: ClipId) -> bool {
    let node = state.mapping.clips[id];
    clip_id_within(node.id, state.clip_nodes.len()) && chain_items(state.clip_nodes, node.id).len()
        >= node.count
}

/// A clip chain of a display list consists of what its clips consist of, each
/// clip on top of those listed before it, and then of what its parent consists
/// of.
pub proof fn law_clip_chain_items(state: FlattenerState, clip_ids: Seq<ClipId>, parent: ClipChainId)
    requires
        clip_nodes_ordered(state.clip_nodes),
        clip_id_within(parent, state.clip_nodes.len()),
        forall|i: int| 0 <= i < clip_ids.len() ==> clip_whole(state, #[trigger] clip_ids[i]),
        state.link_clips(clip_ids, parent).clip_nodes.len() <= usize::MAX,
    ensures
        chain_items(
            state.link_clips(clip_ids, parent).clip_nodes,
            state.linked_clips(clip_ids, parent),
        ) == linked_items(state, clip_ids, chain_items(state.clip_nodes, parent)),
    decreases clip_ids.len(),
{
    if clip_ids.len() > 0 {
        let node = state.mapping.clips[clip_ids[0]];
        assert(clip_whole(state, clip_ids[0]));
        let count = node.count as nat;
        let copied = state.copy_clip_nodes(node.id, count, parent);
        let next = state.built_clip_chain(count, parent);
        let rest = clip_ids.drop_first();
        lemma_link_clips_keeps(copied, rest, next);
        lemma_copy_clip_nodes_keeps(state, node.id, count, parent);
        law_copied_chain_items(state, node.id, count, parent);
        assert forall|i: int| 0 <= i < rest.len() implies clip_whole(copied, #[trigger] rest[i])
            && own_items(copied.clip_nodes, copied.mapping.clips[rest[i]]) == own_items(
            state.clip_nodes,
            state.mapping.clips[rest[i]],
        ) by {
            assert(rest[i] == clip_ids[i + 1]);
            assert(clip_whole(state, clip_ids[i + 1]));
            let other = state.mapping.clips[rest[i]];
            assert(chain_items(copied.clip_nodes, other.id) == chain_items(
                state.clip_nodes,
                other.id,
            ));
        }
        law_clip_chain_items(copied, rest, next);
        lemma_linked_items_same(
            copied,
            state,
            rest,
            own_items(state.clip_nodes, node).reverse() + chain_items(state.clip_nodes, parent),
        );
    }
}

/// A stacking context that is a no-op makes no picture and interns nothing: what
/// it drew comes after what its parent drew before it, and nothing else changes.
pub proof fn law_redundant_context_dissolves(state: FlattenerState)
    requires
        state.top_is_redundant(true),
    ensures
        ({
            let after = state.pop_stacking_context(true);
            let count = state.sc_stack.len();
            let parent = state.sc_stack[count - 2];
            &&& after == (FlattenerState { sc_stack: after.sc_stack, ..state })
            &&& after.sc_stack.len() == count - 1
            &&& after.sc_stack.drop_last() == state.sc_stack.take(count - 2)
            &&& after.sc_stack.last() == Context {
                primitives: parent.primitives + state.sc_stack.last().primitives,
                ..parent
            }
        }),
{
    let after = state.pop_stacking_context(true);
    let count = state.sc_stack.len();
    assert(after.sc_stack.drop_last() =~= state.sc_stack.take(count - 2));
}

/// The state after instances are drawn, in order.
pub open spec fn draw_all<'a>(state: FlattenerState<'a>, prims: Instances) -> FlattenerState<'a>
    decreases prims.len(),
{
    if prims.len() == 0 {
        state
    } else {
        draw_all(state, prims.drop_last()).add_primitive_to_draw_list(prims.last())
    }
}

/// Drawing instances appends them to what the topmost stacking context drew.
proof fn lemma_draw_all(state: FlattenerState, prims: Instances)
    requires
        state.sc_stack.len() > 0,
    ensures
        draw_all(state, prims) == state.with_top(
            Context {
                primitives: state.sc_stack.last().primitives + prims,
                ..state.sc_stack.last()
            },
        ),
    decreases prims.len(),
{
    let top = state.sc_stack.last();
    if prims.len() == 0 {
        assert(top.primitives + prims =~= top.primitives);
        assert(state.sc_stack.drop_last().push(top) =~= state.sc_stack);
    } else {
        let rest = prims.drop_last();
        lemma_draw_all(state, rest);
        let before = draw_all(state, rest);
        assert(before.sc_stack.drop_last() =~= state.sc_stack.drop_last());
        assert((top.primitives + rest).push(prims.last()) =~= top.primitives + prims);
    }
}

/// A stacking context that is a no-op in its parent draws into that: whatever is
/// drawn between its begin and its end, everything is as if it had been drawn
/// without it. What else beginning it does is that flat children of a
/// preserve-3d parent are put into a picture.
pub proof fn law_noop_context_round_trip(
    state: FlattenerState,
    pipeline_id: PipelineId,
    composite_ops: CompositeOps<Seq<FilterOp>>,
    transform_style: TransformStyle,
    is_backface_visible: bool,
    create_tile_cache: bool,
    spatial_node_index: SpatialNodeIndex,
    clip_chain_id: ClipChainId,
    requested_raster_space: RasterSpace,
    node_is_identity: bool,
    prims: Instances,
)
    requires
        state.push_stacking_context(
            pipeline_id,
            composite_ops,
            transform_style,
            is_backface_visible,
            create_tile_cache,
            spatial_node_index,
            clip_chain_id,
            requested_raster_space,
        ).top_is_redundant(node_is_identity),
    ensures
        ({
            let pushed = state.push_stacking_context(
                pipeline_id,
                composite_ops,
                transform_style,
                is_backface_visible,
                create_tile_cache,
                spatial_node_index,
                clip_chain_id,
                requested_raster_space,
            );
            &&& draw_all(pushed, prims).pop_stacking_context(node_is_identity) == draw_all(
                state.cut_flat_items(),
                prims,
            )
            &&& !state.parent_is_3d() ==> state.cut_flat_items() == state
        }),
{
    let pushed = state.push_stacking_context(
        pipeline_id,
        composite_ops,
        transform_style,
        is_backface_visible,
        create_tile_cache,
        spatial_node_index,
        clip_chain_id,
        requested_raster_space,
    );
    let cut = state.cut_flat_items();
    let sc = pushed.sc_stack.last();
    let count = pushed.sc_stack.len();
    assert(pushed.sc_stack.drop_last() =~= cut.sc_stack);
    lemma_draw_all(pushed, prims);
    lemma_draw_all(cut, prims);
    let drawn = draw_all(pushed, prims);
    assert(sc.primitives + prims =~= prims);
    assert(drawn.sc_stack.drop_last() =~= cut.sc_stack);
    assert(drawn.sc_stack[count - 2] == pushed.sc_stack[count - 2]);
    assert(drawn.top_is_redundant(node_is_identity));
    let parent = cut.sc_stack.last();
    assert(drawn.pop_stacking_context(node_is_identity).sc_stack =~= draw_all(
        cut,
        prims,
    ).sc_stack);
}

/// A stacking context without filters, blending, clip, transform or tile cache,
/// that draws as its parent does, draws into that: whatever is drawn between its
/// begin and its end, everything is as if it had been drawn without it.
pub proof fn law_plain_context_round_trip(
    state: FlattenerState,
    pipeline_id: PipelineId,
    spatial_node_index: SpatialNodeIndex,
    prims: Instances,
)
    requires
        state.sc_stack.len() > 0,
        !state.sc_stack.last().is_3d(),
        state.sc_stack.last().clip_chain_id == ClipChainId::Unclipped,
        state.sc_stack.last().requested_raster_space.same_as(
            state.sc_stack.last().requested_raster_space,
        ),
    ensures
        draw_all(
            state.push_stacking_context(
                pipeline_id,
                CompositeOps::spec_nothing(),
                TransformStyle::Flat,
                state.sc_stack.last().is_backface_visible,
                false,
                spatial_node_index,
                ClipChainId::Unclipped,
                state.sc_stack.last().requested_raster_space,
            ),
            prims,
        ).pop_stacking_context(true) == draw_all(state, prims),
{
    let parent = state.sc_stack.last();
    let pushed = state.push_stacking_context(
        pipeline_id,
        CompositeOps::spec_nothing(),
        TransformStyle::Flat,
        parent.is_backface_visible,
        false,
        spatial_node_index,
        ClipChainId::Unclipped,
        parent.requested_raster_space,
    );
    assert(pushed.sc_stack[state.sc_stack.len() - 1] == parent);
    law_noop_context_round_trip(
        state,
        pipeline_id,
        CompositeOps::spec_nothing(),
        TransformStyle::Flat,
        parent.is_backface_visible,
        false,
        spatial_node_index,
        ClipChainId::Unclipped,
        parent.requested_raster_space,
        true,
        prims,
    );
}

/// The instance of the picture at a position of the store, as the pictures of a
/// stacking context draw it.
pub open spec fn chained_instance(
    state: FlattenerState,
    sc: Context,
    k: int,
) -> PrimitiveInstance {
    picture_instance(
        RequestIndex { index: (state.requests.len() + k) as usize },
        PictureIndex { index: (state.prim_store.pictures.len() + k) as usize },
        ClipChainId::Unclipped,
        sc.spatial_node_index,
    )
}

/// Each filter of a stacking context makes one picture, in the order of the
/// filters. Each of them draws exactly the picture before it, and the first
/// draws what there was.
pub proof fn law_filters_nest(chain: PictureChain, sc: Context, filters: Seq<FilterOp>)
    ensures
        ({
            let start = chain.state;
            let after = chain.with_filters(sc, filters);
            let pictures = after.state.prim_store.pictures;
            let count = start.prim_store.pictures.len();
            &&& pictures.len() == count + filters.len()
            &&& pictures.take(count as int) == start.prim_store.pictures
            &&& forall|k: int|
                0 <= k < filters.len() ==> #[trigger] pictures[count + k] == context_picture(
                    sc,
                    Some(PictureCompositeMode::Filter(SanitizedFilter { filter: filters[k] })),
                    Picture3DContext::Out,
                    None,
                    seq![
                        if k == 0 {
                            chain.outer.instance
                        } else {
                            chained_instance(start, sc, k - 1)
                        },
                    ],
                    true,
                )
            &&& after.outer.instance == if filters.len() == 0 {
                chain.outer.instance
            } else {
                chained_instance(start, sc, filters.len() - 1)
            }
            &&& after.state.requests.len() == start.requests.len() + filters.len()
        }),
    decreases filters.len(),
{
    let start = chain.state;
    let count = start.prim_store.pictures.len() as int;
    if filters.len() > 0 {
        let next = chain.wrapped(
            sc,
            PictureCompositeMode::Filter(SanitizedFilter { filter: filters[0] }),
            true,
        );
        let rest = filters.drop_first();
        law_filters_nest(next, sc, rest);
        let pictures = next.with_filters(sc, rest).state.prim_store.pictures;
        let middle = next.state.prim_store.pictures;
        assert(middle.len() == count + 1);
        assert(pictures.take(count) =~= start.prim_store.pictures) by {
            assert forall|i: int| 0 <= i < count implies pictures.take(count)[i]
                == start.prim_store.pictures[i] by {
                assert(pictures.take(count + 1)[i] == middle[i]);
            }
        }
        assert forall|k: int| 0 <= k < filters.len() implies #[trigger] pictures[count + k]
            == context_picture(
            sc,
            Some(PictureCompositeMode::Filter(SanitizedFilter { filter: filters[k] })),
            Picture3DContext::Out,
            None,
            seq![
                if k == 0 {
                    chain.outer.instance
                } else {
                    chained_instance(start, sc, k - 1)
                },
            ],
            true,
        ) by {
            if k == 0 {
                assert(pictures.take(count + 1)[count] == middle[count]);
            } else {
                assert(rest[k - 1] == filters[k]);
                assert(pictures[(count + 1) + (k - 1)] == context_picture(
                    sc,
                    Some(PictureCompositeMode::Filter(SanitizedFilter { filter: rest[k - 1] })),
                    Picture3DContext::Out,
                    None,
                    seq![
                        if k - 1 == 0 {
                            next.outer.instance
                        } else {
                            chained_instance(next.state, sc, k - 2)
                        },
                    ],
                    true,
                ));
                if k == 1 {
                    assert(next.outer.instance == chained_instance(start, sc, 0));
                } else {
                    assert(chained_instance(next.state, sc, k - 2) == chained_instance(
                        start,
                        sc,
                        k - 1,
                    ));
                }
            }
        }
        if rest.len() == 0 {
            assert(next.outer.instance == chained_instance(start, sc, 0));
        } else {
            assert(chained_instance(next.state, sc, rest.len() - 1) == chained_instance(
                start,
                sc,
                filters.len() - 1,
            ));
        }
    } else {
        assert(start.prim_store.pictures.take(count) =~= start.prim_store.pictures);
    }
}

/// The number of pictures that a stacking context becomes: one for its content,
/// one for the 3D hierarchy that it is the root of, one for each filter, and one
/// for its mix-blend mode if anything was drawn in the parent before it.
pub open spec fn context_picture_count(sc: Context, parent_is_empty: bool) -> nat {
    let hierarchy = if sc.context_3d matches Picture3DContext::In { root_data, .. } && root_data
        is Some {
        1nat
    } else {
        0
    };
    let blend = if sc.composite_ops.mix_blend_mode is Some && !parent_is_empty {
        1nat
    } else {
        0
    };
    1 + hierarchy + sc.composite_ops.filters.len() + blend
}

/// The pictures of a stacking context are as many as `context_picture_count`
/// says; they are added to the store, which keeps those it had; and the last of
/// them is the outermost.
pub proof fn law_context_picture_count(state: FlattenerState, sc: Context, parent_is_empty: bool)
    requires
        state.prim_store.pictures.len() + context_picture_count(sc, parent_is_empty) <= usize::MAX,
    ensures
        ({
            let chain = state.context_pictures(sc, parent_is_empty);
            let pictures = chain.state.prim_store.pictures;
            let count = state.prim_store.pictures.len();
            &&& pictures.len() == count + context_picture_count(sc, parent_is_empty)
            &&& pictures.take(count as int) == state.prim_store.pictures
            &&& pictures[count as int] == leaf_picture(sc)
            &&& chain.outer.pic_index.index == pictures.len() - 1
        }),
{
    let count = state.prim_store.pictures.len() as int;
    let leaf = state.add_context_picture(
        sc,
        leaf_picture(sc),
        PictureCompositeKey::Of(leaf_composite_mode(sc)),
    );
    let inner = leaf.with_3d_container(sc);
    let filtered = inner.with_filters(sc, sc.composite_ops.filters);
    law_filters_nest(inner, sc, sc.composite_ops.filters);
    lemma_outermost_is_last(inner, sc, sc.composite_ops.filters);
    let chain = filtered.with_mix_blend(sc, parent_is_empty);
    let pictures = chain.state.prim_store.pictures;
    let inner_pictures = inner.state.prim_store.pictures;
    let filtered_pictures = filtered.state.prim_store.pictures;
    assert(inner_pictures.take(count) =~= state.prim_store.pictures);
    assert(inner_pictures[count] == leaf_picture(sc));
    assert forall|i: int| 0 <= i < inner_pictures.len() implies pictures[i]
        == inner_pictures[i] by {
        assert(filtered_pictures.take(inner_pictures.len() as int)[i] == inner_pictures[i]);
    }
    assert(pictures.take(count) =~= state.prim_store.pictures) by {
        assert forall|i: int| 0 <= i < count implies pictures.take(count)[i]
            == state.prim_store.pictures[i] by {
            assert(inner_pictures.take(count)[i] == state.prim_store.pictures[i]);
        }
    }
}

/// A stacking context that ends, and is not a no-op, adds its pictures to the
/// store, after the one that holds what is cached, if it is cached. Without a
/// parent, the last of them is the root of the scene.
pub proof fn law_pop_picture_count(state: FlattenerState, node_is_identity: bool)
    requires
        state.sc_stack.len() > 0,
        !state.top_is_redundant(node_is_identity),
        state.pop_stacking_context(node_is_identity).prim_store.pictures.len() <= usize::MAX,
    ensures
        ({
            let sc = state.sc_stack.last();
            let parent_is_empty = state.sc_stack.len() == 1
                || state.sc_stack[state.sc_stack.len() - 2].primitives.len() == 0;
            let cached = if sc.create_tile_cache && state.caches(sc.primitives) {
                1nat
            } else {
                0
            };
            let after = state.pop_stacking_context(node_is_identity);
            &&& after.prim_store.pictures.len() == state.prim_store.pictures.len() + cached
                + context_picture_count(sc, parent_is_empty)
            &&& state.sc_stack.len() == 1 ==> after.root_pic_index.index
                == after.prim_store.pictures.len() - 1
        }),
{
    let sc = state.sc_stack.last();
    let below = FlattenerState { sc_stack: state.sc_stack.drop_last(), ..state };
    let parent_is_empty = below.sc_stack.len() == 0
        || below.sc_stack.last().primitives.len() == 0;
    let cached = if sc.create_tile_cache {
        below.setup_picture_caching(sc.primitives)
    } else {
        below
    };
    let prims = if sc.create_tile_cache {
        below.cached_primitives(sc.primitives)
    } else {
        sc.primitives
    };
    let cached_sc = Context { primitives: prims, ..sc };
    let inner = cached.add_context_picture(
        cached_sc,
        leaf_picture(cached_sc),
        PictureCompositeKey::Of(leaf_composite_mode(cached_sc)),
    ).with_3d_container(cached_sc);
    law_filters_nest(inner, cached_sc, sc.composite_ops.filters);
    law_context_picture_count(cached, cached_sc, parent_is_empty);
    if state.sc_stack.len() > 1 {
        assert(below.sc_stack.last() == state.sc_stack[state.sc_stack.len() - 2]);
    }
    assert(below.caches(sc.primitives) == state.caches(sc.primitives));
    assert(context_picture_count(cached_sc, parent_is_empty) == context_picture_count(
        sc,
        parent_is_empty,
    ));
    lemma_context_pictures_keep(cached, cached_sc, parent_is_empty);
}

/// The outermost picture, after the filters, is the last of the store, if it was
/// before.
proof fn lemma_outermost_is_last(chain: PictureChain, sc: Context, filters: Seq<FilterOp>)
    requires
        chain.state.prim_store.pictures.len() + filters.len() <= usize::MAX,
        chain.outer.pic_index.index == chain.state.prim_store.pictures.len() - 1,
    ensures
        ({
            let after = chain.with_filters(sc, filters);
            after.outer.pic_index.index == after.state.prim_store.pictures.len() - 1
        }),
    decreases filters.len(),
{
    if filters.len() > 0 {
        lemma_outermost_is_last(
            chain.wrapped(
                sc,
                PictureCompositeMode::Filter(SanitizedFilter { filter: filters[0] }),
                true,
            ),
            sc,
            filters.drop_first(),
        );
    }
}

/// A transparent rectangle is not drawn, but can be hit: where it has a tag, it
/// comes last in the order of what can be hit. Nothing else changes.
pub proof fn law_transparent_rectangle_only_hit(
    state: FlattenerState,
    clip_and_scroll: ScrollNodeAndClipChain,
    info: LayoutPrimitiveInfo,
    color: ColorF,
    draws: bool,
    offset: LayoutVector2D,
)
    requires
        color.a.same(F32::zero()),
    ensures
        ({
            let after = state.add_solid_rectangle(clip_and_scroll, info, color, draws, offset);
            &&& after == (FlattenerState { hit_testing_runs: after.hit_testing_runs, ..state })
            &&& hit_order(after.hit_testing_runs) == match info.tag {
                Some(tag) => hit_order(state.hit_testing_runs).push(
                    (HitTestingItem::spec_new(tag, info), clip_and_scroll),
                ),
                None => hit_order(state.hit_testing_runs),
            }
        }),
{
    if let Some(tag) = info.tag {
        law_hit_order_append(
            state.hit_testing_runs,
            HitTestingItem::spec_new(tag, info),
            clip_and_scroll,
        );
    }
}

/// A gradient line and the same line given from its other end have the same
/// start and end, and exactly one of the two has its stops reversed.
pub proof fn law_gradient_orientation<'a>(
    info: LayoutPrimitiveInfo,
    a: PointF,
    b: PointF,
    stops: &'a Vec<GradientStop>,
    extend_mode: ExtendMode,
    stretch_size: LayoutSize,
    tile_spacing: LayoutSize,
    nine_patch: Option<NinePatchDescriptor>,
    draws: bool,
)
    requires
        !a.x.nan() && !a.y.nan() && !b.x.nan() && !b.y.nan(),
        !(a.x.same(b.x) && a.y.same(b.y)),
    ensures
        ({
            let forth = linear_gradient(
                info,
                a,
                b,
                stops,
                extend_mode,
                stretch_size,
                tile_spacing,
                nine_patch,
                draws,
            );
            let back = linear_gradient(
                info,
                b,
                a,
                stops,
                extend_mode,
                stretch_size,
                tile_spacing,
                nine_patch,
                draws,
            );
            &&& forth is Some == back is Some
            &&& forth is Some ==> {
                &&& forth->0.start_point == back->0.start_point
                &&& forth->0.end_point == back->0.end_point
                &&& forth->0.reverse_stops == !back->0.reverse_stops
            }
        }),
{
    assert(runs_backwards(a, b) != runs_backwards(b, a));
}

/// The number of primitives among pending items.
pub open spec fn primitives_among(items: Seq<ShadowItem>) -> nat
    decreases items.len(),
{
    if items.len() == 0 {
        0
    } else {
        primitives_among(items.drop_last()) + if items.last() is Shadow {
            0
        } else {
            1nat
        }
    }
}

/// A shadow shows every primitive that comes after it, once.
pub proof fn law_shadow_shows_all<'a>(
    state: FlattenerState<'a>,
    shadow: Shadow,
    items: Seq<ShadowItem<'a>>,
    offset: LayoutVector2D,
)
    ensures
        state.added_shadow_prims(shadow, items, offset).len() == primitives_among(items),
        state.add_shadow_prims(shadow, items, offset).requests.len() == state.requests.len()
            + primitives_among(items),
    decreases items.len(),
{
    if items.len() > 0 {
        law_shadow_shows_all(state, shadow, items.drop_last(), offset);
    }
}

/// The number of instances that pending items draw: a shadow draws one where a
/// primitive comes after it, a primitive draws one where it is visible.
pub open spec fn drawn_among(items: Seq<ShadowItem>) -> nat
    decreases items.len(),
{
    if items.len() == 0 {
        0
    } else {
        let rest = items.drop_first();
        drawn_among(rest) + if items[0] is Shadow {
            if primitives_among(rest) > 0 {
                1nat
            } else {
                0
            }
        } else if items[0].parts()->0.visible {
            1
        } else {
            0
        }
    }
}

/// Pending items are drawn into the topmost stacking context, after what it drew
/// before; the other stacking contexts stay as they are.
pub proof fn law_pending_drawn<'a>(
    state: FlattenerState<'a>,
    items: Seq<ShadowItem<'a>>,
    offset: LayoutVector2D,
)
    requires
        state.sc_stack.len() > 0,
    ensures
        ({
            let after = state.draw_pending(items, offset);
            let before = state.sc_stack.last().primitives;
            let drawn = after.sc_stack.last().primitives;
            &&& after.sc_stack.len() == state.sc_stack.len()
            &&& after.sc_stack.drop_last() == state.sc_stack.drop_last()
            &&& drawn.len() == before.len() + drawn_among(items)
            &&& drawn.take(before.len() as int) == before
        }),
    decreases items.len(),
{
    let before = state.sc_stack.last().primitives;
    if items.len() == 0 {
        assert(before.take(before.len() as int) =~= before);
    } else {
        let rest = items.drop_first();
        let next = match items[0] {
            ShadowItem::Shadow(pending) => state.draw_shadow(pending, rest, offset),
            item => state.add_shadow_prim_to_draw_list(item.parts()->0, offset),
        };
        if let ShadowItem::Shadow(pending) = items[0] {
            law_shadow_shows_all(state, pending.shadow, rest, offset);
            lemma_add_shadow_prims_keep(state, pending.shadow, rest, offset);
        }
        assert(next.sc_stack.drop_last() =~= state.sc_stack.drop_last());
        law_pending_drawn(next, rest, offset);
        let middle = next.sc_stack.last().primitives;
        let drawn = next.draw_pending(rest, offset).sc_stack.last().primitives;
        assert(middle.take(before.len() as int) =~= before);
        assert forall|i: int| 0 <= i < before.len() implies drawn.take(before.len() as int)[i]
            == before[i] by {
            assert(drawn.take(middle.len() as int)[i] == middle[i]);
        }
        assert(drawn.take(before.len() as int) =~= before);
    }
}

/// What is drawn last is the primitive that was added: its instance refers to
/// the data of that primitive, and to a record of the offset that it was added
/// with.
pub proof fn law_drawn_primitive_is_stored<'a>(
    state: FlattenerState<'a>,
    info: LayoutPrimitiveInfo,
    clip_chain_id: ClipChainId,
    clip_and_scroll: ScrollNodeAndClipChain,
    prim: Primitive<'a>,
    offset: LayoutVector2D,
)
    requires
        state.sc_stack.len() > 0,
        state.requests.len() <= usize::MAX,
        state.prim_store.records.len() <= usize::MAX,
    ensures
        ({
            let after = state.add_prim_to_draw_list(
                info,
                clip_chain_id,
                clip_and_scroll,
                prim,
                offset,
            );
            let drawn = after.sc_stack.last().primitives.last();
            &&& after.sc_stack.last().primitives.drop_last() == state.sc_stack.last().primitives
            &&& drawn.clip_chain_id == clip_chain_id
            &&& drawn.spatial_node_index == clip_and_scroll.spatial_node_index
            &&& drawn.kind matches PrimitiveInstanceKind::Primitive { data_handle, record } && {
                &&& after.requests[data_handle.index as int] matches InternRequest::Primitive {
                    prim: stored,
                    info: stored_info,
                    ..
                } && stored == prim && stored_info == info
                &&& after.prim_store.records[record as int] == PrimitiveRecord {
                    data_handle,
                    reference_frame_relative_offset: offset,
                }
            }
        }),
{
    let after = state.add_prim_to_draw_list(info, clip_chain_id, clip_and_scroll, prim, offset);
    assert(after.sc_stack.last().primitives.drop_last() =~= state.sc_stack.last().primitives);
}

/// Before a stacking context begins inside a preserve-3d one, the flat children
/// of that are put into a picture, which comes last in what was collected for
/// the 3D hierarchy; so their order is kept.
pub proof fn law_flat_children_collected(state: FlattenerState)
    requires
        state.wf(),
        state.sc_stack.len() > 0,
        state.sc_stack.last().has_flat_items(),
    ensures
        ({
            let top = state.sc_stack.last();
            let after = state.cut_flat_items();
            let place = root_3d_place(state.sc_stack);
            &&& 0 <= place < state.sc_stack.len()
            &&& after.sc_stack.last().primitives.len() == 0
            &&& after.prim_store.pictures.last().prim_list == top.primitives
            &&& state.sc_stack[place].context_3d matches Picture3DContext::In {
                root_data: Some(before),
                ..
            } && (after.sc_stack[place].context_3d matches Picture3DContext::In {
                root_data: Some(collected),
                ..
            } && collected == before.push(
                state.added_picture(top.clip_chain_id, top.spatial_node_index),
            ))
        }),
{
    let top = state.sc_stack.last();
    let last = state.sc_stack.len() - 1;
    assert(hierarchy_whole_at(state.sc_stack, last));
    law_3d_root_found(state.sc_stack);
    let emptied = state.with_top(Context { primitives: Seq::empty(), ..top });
    assert(emptied.sc_stack.drop_last() =~= state.sc_stack.drop_last());
    assert(root_3d_place(emptied.sc_stack) == root_3d_place(state.sc_stack));
}

/// A shadow cannot be hit: drawing one adds no area.
pub proof fn law_shadows_cannot_be_hit<'a>(
    state: FlattenerState<'a>,
    pending: PendingShadow,
    items: Seq<ShadowItem<'a>>,
    offset: LayoutVector2D,
)
    ensures
        state.draw_shadow(pending, items, offset).hit_testing_runs == state.hit_testing_runs,
{
    lemma_add_shadow_prims_keep(state, pending.shadow, items, offset);
}

/// Inside a stacking context that has a clip, an item that is clipped by nothing
/// but the root clip of its pipeline is not clipped: the clip of the stacking
/// context is applied to all of it.
pub proof fn law_clipped_context_clips_as_a_whole(
    flattening: Flattening,
    item: DisplayItem,
    stacking_context: StackingContext,
    filters: Seq<FilterOp>,
    spatial_node_index: SpatialNodeIndex,
    inner: DisplayItem,
)
    requires
        !stacking_context_empty(flattening.top().list@, flattening.top().cursor as int),
        stacking_context.clip_id matches Some(clip_id)
            && flattening.state.mapping.clips.contains_key(clip_id)
            && flattening.state.mapping.clips[clip_id].id != ClipChainId::Unclipped,
        inner.space_and_clip.clip_id.is_root(),
    ensures
        ({
            let after = flattening.flatten_stacking_context(
                item,
                stacking_context,
                filters,
                spatial_node_index,
            ).flattening;
            &&& after.state.sc_stack.last().clip_chain_id
                == flattening.state.mapping.clips[stacking_context.clip_id->0].id
            &&& item_clip_and_scroll(
                after.state,
                inner,
                after.top().apply_pipeline_clip,
            ) matches Ok(place) ==> place.clip_chain_id == ClipChainId::Unclipped
        }),
{
}

} // verus!
