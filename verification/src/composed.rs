//! What stacking contexts come to: how they begin, which pictures they become
//! when they end, and where these are drawn.
use vstd::prelude::*;

use crate::caching::{lemma_scrolled_until, lemma_unscrolled_before};
use crate::display_list::{DisplayItem, SpecificDisplayItem, StackingContext};
use crate::drawn::{float_nan, float_place, law_float_comparison};
use crate::effects::{listed_next, opens_frame, same_places};
use crate::ids::{
    ClipChainId, PictureIndex, PipelineId, RequestIndex, ScrollNodeAndClipChain, SpatialNodeIndex,
};
use crate::layout::{ColorF, F32, LayoutPoint, LayoutRect, LayoutSize};
use crate::picture::{
    BlitReason, FilterOp, Instances, MixBlendMode, Picture3DContext, PictureCompositeKey,
    PictureCompositeMode, PicturePrimitive, PrimitiveInstance, PrimitiveInstanceKind, RasterSpace,
    SanitizedFilter, TileCache,
};
use crate::placed::{offset_to, pipeline_number};
use crate::primitives::{InternRequest, LayoutPrimitiveInfo, PictureKey, PrimitiveSceneData};
use crate::soundness::{hierarchies_whole, hierarchy_whole_at};
use crate::spatial_tree::{scroll_root, SpatialNode, TransformStyle};
use crate::stacking_context::{Context, FlattenedStackingContext};
use crate::state::{
    caching_cut, containing_block, is_scrolled, leaf_composite_mode, leaf_picture, root_3d_place,
    several_scroll_roots, FlattenerState, PictureChain,
};
use crate::traversal::{FlattenError, FlattenStep, Flattening, Frame, FrameKind};

verus! {

/// Whether two raster spaces are the same: both are the screen, or both are local
/// and scaled by equal numbers.
pub open spec fn rasters_alike(a: RasterSpace, b: RasterSpace) -> bool {
    match (a, b) {
        (RasterSpace::Screen, RasterSpace::Screen) => true,
        (RasterSpace::Local(x), RasterSpace::Local(y)) => !float_nan(x) && !float_nan(y)
            && float_place(x) == float_place(y),
        _ => false,
    }
}

/// Whether a stacking context does nothing in its parent: it is in no 3D
/// hierarchy, has no filter, blends with nothing, shows its back as its parent
/// does, is rasterised as that is, has the same clip, needs no surface for any
/// reason, is not transformed, and is not cached.
pub open spec fn does_nothing(sc: Context, parent: Context, node_is_identity: bool) -> bool {
    &&& sc.context_3d is Out
    &&& sc.composite_ops.filters.len() == 0
    &&& sc.composite_ops.mix_blend_mode is None || parent.primitives.len() == 0
    &&& sc.is_backface_visible == parent.is_backface_visible
    &&& rasters_alike(sc.requested_raster_space, parent.requested_raster_space)
    &&& sc.clip_chain_id == parent.clip_chain_id
    &&& !sc.blit_reason.preserve_3d && !sc.blit_reason.clip && !sc.blit_reason.isolate
    &&& node_is_identity
    &&& !sc.create_tile_cache
}

/// Whether the topmost stacking context does nothing in the one below.
pub open spec fn top_does_nothing(state: FlattenerState, node_is_identity: bool) -> bool {
    &&& state.sc_stack.len() > 1
    &&& does_nothing(
        state.sc_stack.last(),
        state.sc_stack[state.sc_stack.len() - 2],
        node_is_identity,
    )
}

/// Whether two scenes differ at most in what is drawn.
pub open spec fn same_but_drawn(a: FlattenerState, b: FlattenerState) -> bool {
    &&& same_places(a, b)
    &&& a.pending_shadow_items == b.pending_shadow_items
    &&& a.hit_testing_runs == b.hit_testing_runs
    &&& a.prim_store.records == b.prim_store.records
}

pub proof fn lemma_does_nothing(state: FlattenerState, node_is_identity: bool)
    ensures
        state.top_is_redundant(node_is_identity) == top_does_nothing(state, node_is_identity),
{
    if state.sc_stack.len() > 1 {
        let sc = state.sc_stack.last();
        let parent = state.sc_stack[state.sc_stack.len() - 2];
        if let (RasterSpace::Local(x), RasterSpace::Local(y)) = (
            sc.requested_raster_space,
            parent.requested_raster_space,
        ) {
            law_float_comparison(x, y);
        }
    }
}

/// A stacking context that does nothing in its parent leaves no trace: what was
/// drawn in it is drawn in the parent, after what was drawn there before.
pub proof fn law_idle_context_ends(state: FlattenerState, node_is_identity: bool)
    requires
        top_does_nothing(state, node_is_identity),
    ensures
        ({
            let after = state.pop_stacking_context(node_is_identity);
            let count = state.sc_stack.len() as int;
            let parent = state.sc_stack[count - 2];
            &&& same_but_drawn(state, after)
            &&& after.prim_store.pictures == state.prim_store.pictures
            &&& after.requests == state.requests
            &&& after.root_pic_index == state.root_pic_index
            &&& after.sc_stack == state.sc_stack.take(count - 2).push(
                FlattenedStackingContext {
                    primitives: parent.primitives + state.sc_stack.last().primitives,
                    ..parent
                },
            )
        }),
{
    lemma_does_nothing(state, node_is_identity);
    let after = state.pop_stacking_context(node_is_identity);
    let count = state.sc_stack.len() as int;
    assert(after.sc_stack.drop_last() =~= state.sc_stack.take(count - 2));
}

/// An instance of the picture at place `picture`, whose data is at place
/// `request`: it is moved by nothing and clipped by nothing.
pub open spec fn picture_as_it_is(
    spatial_node_index: SpatialNodeIndex,
    request: int,
    picture: int,
) -> PrimitiveInstance {
    PrimitiveInstance {
        prim_origin: LayoutPoint::Zero,
        local_clip_rect: LayoutRect::Max,
        kind: PrimitiveInstanceKind::Picture {
            data_handle: RequestIndex { index: request as usize },
            pic_index: PictureIndex { index: picture as usize },
        },
        clip_chain_id: ClipChainId::Unclipped,
        spatial_node_index,
    }
}

/// The request to intern the data of a picture.
pub open spec fn picture_data<'a>(
    is_backface_visible: bool,
    key: PictureCompositeKey,
) -> InternRequest<'a> {
    InternRequest::Picture {
        key: PictureKey {
            is_backface_visible,
            prim_size: LayoutSize::Zero,
            composite_mode_key: key,
        },
        data: PrimitiveSceneData { prim_size: LayoutSize::Zero, is_backface_visible },
    }
}

/// A picture of a stacking context: it belongs to the pipeline of that, lies at its
/// positioning node, and is rasterised as that asks for.
pub open spec fn picture_for(
    sc: Context,
    mode: Option<PictureCompositeMode>,
    context_3d: Picture3DContext<Instances>,
    output: Option<PipelineId>,
    drawn: Instances,
    optimize: bool,
) -> PicturePrimitive<Instances> {
    PicturePrimitive {
        requested_composite_mode: mode,
        context_3d,
        pipeline_id: sc.pipeline_id,
        frame_output_pipeline_id: output,
        apply_local_clip_rect: true,
        requested_raster_space: sc.requested_raster_space,
        prim_list: drawn,
        spatial_node_index: sc.spatial_node_index,
        local_clip_rect: LayoutRect::Max,
        tile_cache: None,
        options: None,
        optimize,
    }
}

/// The picture of the content of a stacking context. In a 3D hierarchy it always
/// has a surface of its own, to be split; else it has one if there is a reason.
/// The embedder gets the content as a texture, unless the whole hierarchy is.
pub open spec fn content_picture(sc: Context, drawn: Instances) -> PicturePrimitive<Instances> {
    match sc.context_3d {
        Picture3DContext::In { ancestor_index, .. } => picture_for(
            sc,
            Some(
                PictureCompositeMode::Blit(
                    BlitReason {
                        preserve_3d: true,
                        clip: sc.blit_reason.clip,
                        isolate: sc.blit_reason.isolate,
                    },
                ),
            ),
            Picture3DContext::In { root_data: None, ancestor_index },
            None,
            drawn,
            false,
        ),
        Picture3DContext::Out => picture_for(
            sc,
            if sc.blit_reason.preserve_3d || sc.blit_reason.clip || sc.blit_reason.isolate {
                Some(PictureCompositeMode::Blit(sc.blit_reason))
            } else {
                None
            },
            Picture3DContext::Out,
            sc.frame_output_pipeline_id,
            drawn,
            false,
        ),
    }
}

/// Whether a stacking context is the root of a 3D hierarchy.
pub open spec fn roots_hierarchy(sc: Context) -> bool {
    sc.context_3d matches Picture3DContext::In { root_data, .. } && root_data is Some
}

/// Whether the pictures of a stacking context are added, each with its data, after
/// what there was: the picture of what is drawn in it; where it is the root of a
/// 3D hierarchy, a picture of all that was collected for that, and then of the
/// first; a picture for each filter, in their order; and a picture for its
/// mix-blend mode, if it blends. From the filters on, each picture draws the one
/// before, as it is.
pub open spec fn adds_context_pictures<'a>(
    requests: Seq<InternRequest<'a>>,
    pictures: Seq<PicturePrimitive<Instances>>,
    after_requests: Seq<InternRequest<'a>>,
    after: Seq<PicturePrimitive<Instances>>,
    sc: Context,
    drawn: Instances,
    blends: bool,
) -> bool {
    let n = pictures.len() as int;
    let r = requests.len() as int;
    let filters = sc.composite_ops.filters;
    let f = if roots_hierarchy(sc) {
        n + 2
    } else {
        n + 1
    };
    &&& after.len() == f + filters.len() + if blends {
        1int
    } else {
        0
    }
    &&& after_requests.len() == r + (after.len() - n)
    &&& forall|i: int| 0 <= i < n ==> #[trigger] after[i] == pictures[i]
    &&& forall|i: int| 0 <= i < r ==> #[trigger] after_requests[i] == requests[i]
    &&& after[n] == content_picture(sc, drawn)
    &&& sc.context_3d matches Picture3DContext::In { root_data: Some(collected), ancestor_index }
        ==> after[n + 1] == picture_for(
        sc,
        None,
        Picture3DContext::In { root_data: Some(Seq::empty()), ancestor_index },
        sc.frame_output_pipeline_id,
        collected.push(picture_as_it_is(sc.spatial_node_index, r, n)),
        false,
    )
    &&& forall|i: int|
        f <= i < f + filters.len() ==> #[trigger] after[i] == picture_for(
            sc,
            Some(PictureCompositeMode::Filter(SanitizedFilter { filter: filters[i - f] })),
            Picture3DContext::Out,
            None,
            seq![picture_as_it_is(sc.spatial_node_index, r + (i - 1 - n), i - 1)],
            true,
        )
    &&& blends ==> sc.composite_ops.mix_blend_mode is Some && after.last() == picture_for(
        sc,
        Some(PictureCompositeMode::MixBlend(sc.composite_ops.mix_blend_mode->0)),
        Picture3DContext::Out,
        None,
        seq![
            picture_as_it_is(sc.spatial_node_index, r + (after.len() - 2 - n), after.len() - 2),
        ],
        false,
    )
    &&& forall|i: int|
        n <= i < after.len() ==> after_requests[r + (i - n)] == picture_data::<'a>(
            sc.is_backface_visible,
            if roots_hierarchy(sc) && i == n + 1 {
                PictureCompositeKey::Identity
            } else {
                PictureCompositeKey::Of((#[trigger] after[i]).requested_composite_mode)
            },
        )
}

/// Whether the outermost picture of a chain is the last one, as it is.
spec fn last_is_outermost(chain: PictureChain, sc: Context, r: int, n: int) -> bool {
    let last = chain.state.prim_store.pictures.len() - 1;
    &&& chain.state.requests.len() - r == chain.state.prim_store.pictures.len() - n
    &&& chain.outer.pic_index == PictureIndex { index: last as usize }
    &&& chain.outer.instance == picture_as_it_is(sc.spatial_node_index, r + (last - n), last)
}

proof fn lemma_filter_pictures<'a>(
    chain: PictureChain<'a>,
    sc: Context,
    filters: Seq<FilterOp>,
    r: int,
    n: int,
)
    requires
        last_is_outermost(chain, sc, r, n),
        n < chain.state.prim_store.pictures.len(),
        0 <= n,
        0 <= r,
    ensures
        ({
            let after = chain.with_filters(sc, filters);
            let pictures = after.state.prim_store.pictures;
            let f = chain.state.prim_store.pictures.len() as int;
            &&& last_is_outermost(after, sc, r, n)
            &&& pictures.len() == f + filters.len()
            &&& forall|i: int|
                0 <= i < f ==> #[trigger] pictures[i] == chain.state.prim_store.pictures[i]
            &&& forall|i: int|
                0 <= i < chain.state.requests.len() ==> #[trigger] after.state.requests[i]
                    == chain.state.requests[i]
            &&& forall|k: int|
                0 <= k < filters.len() ==> #[trigger] pictures[f + k] == picture_for(
                    sc,
                    Some(PictureCompositeMode::Filter(SanitizedFilter { filter: filters[k] })),
                    Picture3DContext::Out,
                    None,
                    seq![
                        picture_as_it_is(
                            sc.spatial_node_index,
                            r + (f + k - 1 - n),
                            f + k - 1,
                        ),
                    ],
                    true,
                )
            &&& forall|i: int|
                f <= i < pictures.len() ==> after.state.requests[r + (i - n)] == picture_data::<
                    'a,
                >(
                    sc.is_backface_visible,
                    PictureCompositeKey::Of((#[trigger] pictures[i]).requested_composite_mode),
                )
        }),
    decreases filters.len(),
{
    if filters.len() > 0 {
        let next = chain.wrapped(
            sc,
            PictureCompositeMode::Filter(SanitizedFilter { filter: filters[0] }),
            true,
        );
        let rest = filters.drop_first();
        lemma_filter_pictures(next, sc, rest, r, n);
        let after = chain.with_filters(sc, filters);
        let pictures = after.state.prim_store.pictures;
        let f = chain.state.prim_store.pictures.len() as int;
        assert(after == next.with_filters(sc, rest));
        assert forall|i: int| 0 <= i < f implies #[trigger] pictures[i]
            == chain.state.prim_store.pictures[i] by {
            assert(pictures[i] == next.state.prim_store.pictures[i]);
        }
        assert forall|i: int| 0 <= i < chain.state.requests.len() implies (
        #[trigger] after.state.requests[i]) == chain.state.requests[i] by {
            assert(after.state.requests[i] == next.state.requests[i]);
        }
        assert(pictures[f] == next.state.prim_store.pictures[f]);
        assert(after.state.requests[r + (f - n)] == next.state.requests[r + (f - n)]);
        assert forall|k: int| 0 <= k < filters.len() implies #[trigger] pictures[f + k]
            == picture_for(
            sc,
            Some(PictureCompositeMode::Filter(SanitizedFilter { filter: filters[k] })),
            Picture3DContext::Out,
            None,
            seq![picture_as_it_is(sc.spatial_node_index, r + (f + k - 1 - n), f + k - 1)],
            true,
        ) by {
            if k > 0 {
                assert(rest[k - 1] == filters[k]);
                assert(pictures[(f + 1) + (k - 1)] == pictures[f + k]);
            }
        }
        assert forall|i: int| f <= i < pictures.len() implies after.state.requests[r + (i - n)]
            == picture_data::<'a>(
            sc.is_backface_visible,
            PictureCompositeKey::Of((#[trigger] pictures[i]).requested_composite_mode),
        ) by {}
    }
}

proof fn lemma_adds_context_pictures<'a>(
    state: FlattenerState<'a>,
    sc: Context,
    parent_is_empty: bool,
)
    ensures
        ({
            let chain = state.context_pictures(sc, parent_is_empty);
            let r = state.requests.len() as int;
            let n = state.prim_store.pictures.len() as int;
            &&& adds_context_pictures(
                state.requests,
                state.prim_store.pictures,
                chain.state.requests,
                chain.state.prim_store.pictures,
                sc,
                sc.primitives,
                sc.composite_ops.mix_blend_mode is Some && !parent_is_empty,
            )
            &&& last_is_outermost(chain, sc, r, n)
        }),
{
    let r = state.requests.len() as int;
    let n = state.prim_store.pictures.len() as int;
    let leaf = state.add_context_picture(
        sc,
        leaf_picture(sc),
        PictureCompositeKey::Of(leaf_composite_mode(sc)),
    );
    assert(leaf_picture(sc) == content_picture(sc, sc.primitives));
    assert(last_is_outermost(leaf, sc, r, n));
    let inner = leaf.with_3d_container(sc);
    assert(last_is_outermost(inner, sc, r, n));
    let filters = sc.composite_ops.filters;
    let filtered = inner.with_filters(sc, filters);
    lemma_filter_pictures(inner, sc, filters, r, n);
    let chain = filtered.with_mix_blend(sc, parent_is_empty);
    let after = chain.state.prim_store.pictures;
    let f = inner.state.prim_store.pictures.len() as int;
    assert forall|i: int| 0 <= i < f implies #[trigger] after[i]
        == inner.state.prim_store.pictures[i] by {
        assert(after[i] == filtered.state.prim_store.pictures[i]);
    }
    assert forall|i: int| 0 <= i < inner.state.requests.len() implies (
    #[trigger] chain.state.requests[i]) == inner.state.requests[i] by {
        assert(chain.state.requests[i] == filtered.state.requests[i]);
    }
    assert forall|i: int| f <= i < f + filters.len() implies #[trigger] after[i] == picture_for(
        sc,
        Some(PictureCompositeMode::Filter(SanitizedFilter { filter: filters[i - f] })),
        Picture3DContext::Out,
        None,
        seq![picture_as_it_is(sc.spatial_node_index, r + (i - 1 - n), i - 1)],
        true,
    ) by {
        assert(after[i] == filtered.state.prim_store.pictures[f + (i - f)]);
    }
    assert forall|i: int| n <= i < after.len() implies chain.state.requests[r + (i - n)]
        == picture_data::<'a>(
        sc.is_backface_visible,
        if roots_hierarchy(sc) && i == n + 1 {
            PictureCompositeKey::Identity
        } else {
            PictureCompositeKey::Of((#[trigger] after[i]).requested_composite_mode)
        },
    ) by {
        if i < f {
            assert(after[i] == inner.state.prim_store.pictures[i]);
            assert(chain.state.requests[r + (i - n)] == inner.state.requests[r + (i - n)]);
        } else if i < filtered.state.prim_store.pictures.len() {
            assert(after[i] == filtered.state.prim_store.pictures[i]);
            assert(chain.state.requests[r + (i - n)] == filtered.state.requests[r + (i - n)]);
        }
    }
}

/// Whether a stacking context is preserve-3d: it is styled so, and has neither a
/// filter nor a mix-blend mode.
pub open spec fn preserves_3d(sc: Context) -> bool {
    &&& sc.transform_style is Preserve3D
    &&& sc.composite_ops.filters.len() == 0
    &&& sc.composite_ops.mix_blend_mode is None
}

/// Whether the root of the 3D hierarchy that the top of a stack is in is at a
/// place of it: all above are in the hierarchy, and none of them is its root.
pub open spec fn roots_top(stack: Seq<Context>, place: int) -> bool {
    &&& 0 <= place < stack.len()
    &&& roots_hierarchy(stack[place])
    &&& forall|i: int|
        place < i < stack.len() ==> (#[trigger] stack[i]).context_3d is In && !roots_hierarchy(
            stack[i],
        )
}

/// Whether an instance comes last in what is collected for the 3D hierarchy that
/// the top of a stack is in; the stacking contexts have not changed otherwise.
pub open spec fn collects_last(
    before: Seq<Context>,
    after: Seq<Context>,
    place: int,
    instance: PrimitiveInstance,
) -> bool {
    let root = before[place];
    &&& roots_top(before, place)
    &&& root.context_3d matches Picture3DContext::In { root_data: Some(collected), ancestor_index }
        && after == before.update(
        place,
        FlattenedStackingContext {
            context_3d: Picture3DContext::In {
                root_data: Some(collected.push(instance)),
                ancestor_index,
            },
            ..root
        },
    )
}

/// The root of a 3D hierarchy is where it is looked for.
proof fn lemma_root_place(stack: Seq<Context>)
    requires
        hierarchies_whole(stack),
        stack.len() > 0,
        stack.last().context_3d is In,
    ensures
        roots_top(stack, root_3d_place(stack)),
    decreases stack.len(),
{
    let last = stack.len() - 1;
    assert(hierarchy_whole_at(stack, last));
    if !roots_hierarchy(stack[last]) {
        let below = stack.drop_last();
        assert(hierarchy_whole_at(stack, last - 1));
        assert forall|i: int| 0 <= i < below.len() implies #[trigger] hierarchy_whole_at(
            below,
            i,
        ) by {
            assert(hierarchy_whole_at(stack, i));
        }
        lemma_root_place(below);
        let place = root_3d_place(below);
        assert forall|i: int| place < i < stack.len() implies (#[trigger] stack[i]).context_3d is In
            && !roots_hierarchy(stack[i]) by {
            if i < last {
                assert(below[i] == stack[i]);
            }
        }
        assert(below[place] == stack[place]);
    }
}

/// Whether the outermost picture of a stacking context that has ended is drawn in
/// what is below: an instance of it, clipped by the clip of the stacking context,
/// comes last in the parent; or, in a preserve-3d parent, in what is collected for
/// the 3D hierarchy. A parent that is blended with gets a surface of its own.
/// Without a parent, the picture is the root of the scene.
pub open spec fn draws_outermost(
    before: FlattenerState,
    after: FlattenerState,
    blends: bool,
) -> bool {
    let sc = before.sc_stack.last();
    let below = before.sc_stack.drop_last();
    let instance = PrimitiveInstance {
        clip_chain_id: sc.clip_chain_id,
        ..picture_as_it_is(
            sc.spatial_node_index,
            after.requests.len() - 1,
            after.prim_store.pictures.len() - 1,
        )
    };
    if below.len() == 0 {
        &&& after.sc_stack == below
        &&& after.root_pic_index.index == after.prim_store.pictures.len() - 1
    } else {
        &&& after.root_pic_index == before.root_pic_index
        &&& if preserves_3d(below.last()) {
            exists|place: int| collects_last(below, after.sc_stack, place, instance)
        } else {
            after.sc_stack == below.drop_last().push(
                FlattenedStackingContext {
                    primitives: below.last().primitives.push(instance),
                    blit_reason: BlitReason {
                        preserve_3d: below.last().blit_reason.preserve_3d,
                        clip: below.last().blit_reason.clip,
                        isolate: below.last().blit_reason.isolate || blends,
                    },
                    ..below.last()
                },
            )
        }
    }
}

/// Whether the topmost stacking context blends with what was drawn before it in
/// its parent: it has a mix-blend mode, and there is something.
pub open spec fn top_blends(state: FlattenerState) -> bool {
    let count = state.sc_stack.len() as int;
    &&& state.sc_stack.last().composite_ops.mix_blend_mode is Some
    &&& count > 1
    &&& state.sc_stack[count - 2].primitives.len() > 0
}

/// Whether an instance is moved by some scroll frame of a display list.
pub open spec fn scrolls(tree: Seq<SpatialNode>, instance: PrimitiveInstance) -> bool {
    scroll_root(tree, instance.spatial_node_index) != (SpatialNodeIndex { index: 0 })
}

/// Whether all instances that scroll, scroll together.
pub open spec fn scroll_together(tree: Seq<SpatialNode>, drawn: Instances) -> bool {
    forall|i: int, j: int|
        0 <= i < drawn.len() && 0 <= j < drawn.len() && scrolls(tree, #[trigger] drawn[i])
            && scrolls(tree, #[trigger] drawn[j]) ==> scroll_root(
            tree,
            drawn[i].spatial_node_index,
        ) == scroll_root(tree, drawn[j].spatial_node_index)
}

/// Whether what is drawn in the topmost stacking context is cached.
pub open spec fn top_is_cached(state: FlattenerState) -> bool {
    &&& state.sc_stack.last().create_tile_cache
    &&& state.config.enable_picture_caching
    &&& scroll_together(state.tree, state.sc_stack.last().primitives)
}

proof fn lemma_caches(state: FlattenerState, drawn: Instances)
    ensures
        several_scroll_roots(state.tree, drawn) == !scroll_together(state.tree, drawn),
{
    if several_scroll_roots(state.tree, drawn) {
        let (i, j) = choose|i: int, j: int|
            0 <= i < drawn.len() && 0 <= j < drawn.len() && is_scrolled(
                state.tree,
                #[trigger] drawn[i],
            ) && is_scrolled(state.tree, #[trigger] drawn[j]) && scroll_root(
                state.tree,
                drawn[i].spatial_node_index,
            ) != scroll_root(state.tree, drawn[j].spatial_node_index);
        assert(scrolls(state.tree, drawn[i]) && scrolls(state.tree, drawn[j]));
    }
    if !scroll_together(state.tree, drawn) {
        let (i, j) = choose|i: int, j: int|
            0 <= i < drawn.len() && 0 <= j < drawn.len() && scrolls(
                state.tree,
                #[trigger] drawn[i],
            ) && scrolls(state.tree, #[trigger] drawn[j]) && scroll_root(
                state.tree,
                drawn[i].spatial_node_index,
            ) != scroll_root(state.tree, drawn[j].spatial_node_index);
        assert(is_scrolled(state.tree, drawn[i]) && is_scrolled(state.tree, drawn[j]));
    }
}

/// The pictures of a stacking context change nothing but pictures and data.
proof fn lemma_context_pictures_only(state: FlattenerState, sc: Context, parent_is_empty: bool)
    ensures
        ({
            let after = state.context_pictures(sc, parent_is_empty).state;
            &&& after.sc_stack == state.sc_stack
            &&& after.root_pic_index == state.root_pic_index
            &&& same_but_drawn(state, after)
        }),
{
    let inner = state.add_context_picture(
        sc,
        leaf_picture(sc),
        PictureCompositeKey::Of(leaf_composite_mode(sc)),
    ).with_3d_container(sc);
    lemma_filters_only(inner, sc, sc.composite_ops.filters);
}

proof fn lemma_filters_only(chain: PictureChain, sc: Context, filters: Seq<FilterOp>)
    ensures
        ({
            let after = chain.with_filters(sc, filters).state;
            &&& after.sc_stack == chain.state.sc_stack
            &&& after.root_pic_index == chain.state.root_pic_index
            &&& same_but_drawn(chain.state, after)
        }),
    decreases filters.len(),
{
    if filters.len() > 0 {
        let next = chain.wrapped(
            sc,
            PictureCompositeMode::Filter(SanitizedFilter { filter: filters[0] }),
            true,
        );
        lemma_filters_only(next, sc, filters.drop_first());
    }
}

proof fn lemma_draws_outermost(
    state: FlattenerState,
    chain: PictureChain,
    r: int,
    n: int,
    blends: bool,
)
    requires
        state.wf(),
        state.sc_stack.len() > 0,
        chain.state.sc_stack == state.sc_stack.drop_last(),
        chain.state.root_pic_index == state.root_pic_index,
        last_is_outermost(chain, state.sc_stack.last(), r, n),
        0 < chain.state.prim_store.pictures.len() <= usize::MAX,
    ensures
        ({
            let sc = state.sc_stack.last();
            let after = chain.state.attach_picture(
                PrimitiveInstance { clip_chain_id: sc.clip_chain_id, ..chain.outer.instance },
                chain.outer.pic_index,
                blends,
            );
            &&& draws_outermost(state, after, blends)
            &&& after == (FlattenerState {
                sc_stack: after.sc_stack,
                root_pic_index: after.root_pic_index,
                ..chain.state
            })
        }),
{
    let sc = state.sc_stack.last();
    let below = state.sc_stack.drop_last();
    let instance = PrimitiveInstance { clip_chain_id: sc.clip_chain_id, ..chain.outer.instance };
    let after = chain.state.attach_picture(instance, chain.outer.pic_index, blends);
    if below.len() > 0 {
        if preserves_3d(below.last()) {
            assert forall|i: int| 0 <= i < below.len() implies #[trigger] hierarchy_whole_at(
                below,
                i,
            ) by {
                assert(hierarchy_whole_at(state.sc_stack, i));
            }
            assert(hierarchy_whole_at(below, below.len() - 1));
            lemma_root_place(below);
            assert(collects_last(below, after.sc_stack, root_3d_place(below), instance));
        }
    }
}

/// A stacking context that does something, and is not cached, becomes pictures of
/// all that was drawn in it, and the outermost of these is drawn in its place.
pub proof fn law_context_ends<'a>(state: FlattenerState<'a>, node_is_identity: bool)
    requires
        state.wf(),
        state.sc_stack.len() > 0,
        !top_does_nothing(state, node_is_identity),
        !top_is_cached(state),
        state.pop_stacking_context(node_is_identity).prim_store.pictures.len() <= usize::MAX,
    ensures
        ({
            let after = state.pop_stacking_context(node_is_identity);
            let sc = state.sc_stack.last();
            &&& same_but_drawn(state, after)
            &&& adds_context_pictures(
                state.requests,
                state.prim_store.pictures,
                after.requests,
                after.prim_store.pictures,
                sc,
                sc.primitives,
                top_blends(state),
            )
            &&& draws_outermost(state, after, top_blends(state))
        }),
{
    lemma_does_nothing(state, node_is_identity);
    let sc = state.sc_stack.last();
    let below = FlattenerState { sc_stack: state.sc_stack.drop_last(), ..state };
    let parent_is_empty = below.sc_stack.len() == 0 || below.sc_stack.last().primitives.len() == 0;
    lemma_caches(state, sc.primitives);
    let cached = if sc.create_tile_cache {
        below.setup_picture_caching(sc.primitives)
    } else {
        below
    };
    assert(cached == below);
    let chain = below.context_pictures(sc, parent_is_empty);
    lemma_context_pictures_only(below, sc, parent_is_empty);
    lemma_adds_context_pictures(below, sc, parent_is_empty);
    let r = state.requests.len() as int;
    let n = state.prim_store.pictures.len() as int;
    let after = state.pop_stacking_context(node_is_identity);
    assert(after.prim_store == chain.state.prim_store);
    lemma_draws_outermost(state, chain, r, n, top_blends(state));
}

/// When a stacking context that does something ends, the instance that is drawn in
/// its place is clipped by the clip that the stacking context began with, whatever
/// its filters and its mix-blend mode are. It is last in its parent; or, in a
/// preserve-3d parent, last in what is collected for the 3D hierarchy.
pub proof fn law_context_stays_clipped(state: FlattenerState, node_is_identity: bool)
    requires
        state.wf(),
        state.sc_stack.len() > 1,
        !top_does_nothing(state, node_is_identity),
        state.pop_stacking_context(node_is_identity).prim_store.pictures.len() <= usize::MAX,
    ensures
        ({
            let after = state.pop_stacking_context(node_is_identity).sc_stack;
            let sc = state.sc_stack.last();
            let parent = state.sc_stack[state.sc_stack.len() - 2];
            if parent.transform_style is Preserve3D && parent.composite_ops.filters.len() == 0
                && parent.composite_ops.mix_blend_mode is None {
                exists|place: int|
                    roots_top(after, place) && match after[place].context_3d {
                        Picture3DContext::In { root_data: Some(collected), .. } => {
                            &&& collected.len() > 0
                            &&& collected.last().clip_chain_id == sc.clip_chain_id
                            &&& collected.last().spatial_node_index == sc.spatial_node_index
                        },
                        _ => false,
                    }
            } else {
                &&& after.last().primitives.len() == parent.primitives.len() + 1
                &&& after.last().primitives.last().clip_chain_id == sc.clip_chain_id
                &&& after.last().primitives.last().spatial_node_index == sc.spatial_node_index
            }
        }),
{
    lemma_does_nothing(state, node_is_identity);
    let sc = state.sc_stack.last();
    let below = FlattenerState { sc_stack: state.sc_stack.drop_last(), ..state };
    let parent_is_empty = below.sc_stack.last().primitives.len() == 0;
    let cached = if sc.create_tile_cache {
        below.setup_picture_caching(sc.primitives)
    } else {
        below
    };
    let prims = if sc.create_tile_cache {
        below.cached_primitives(sc.primitives)
    } else {
        sc.primitives
    };
    let cached_sc = Context { primitives: prims, ..sc };
    let chain = cached.context_pictures(cached_sc, parent_is_empty);
    lemma_context_pictures_only(cached, cached_sc, parent_is_empty);
    lemma_adds_context_pictures(cached, cached_sc, parent_is_empty);
    let r = cached.requests.len() as int;
    let n = cached.prim_store.pictures.len() as int;
    let after = state.pop_stacking_context(node_is_identity);
    assert(after.prim_store == chain.state.prim_store);
    lemma_draws_outermost(state, chain, r, n, top_blends(state));
    if preserves_3d(below.sc_stack.last()) {
        let instance = PrimitiveInstance {
            clip_chain_id: sc.clip_chain_id,
            ..chain.outer.instance
        };
        let place = choose|place: int|
            collects_last(below.sc_stack, after.sc_stack, place, instance);
        assert(collects_last(below.sc_stack, after.sc_stack, place, instance));
        assert(roots_top(after.sc_stack, place));
    }
}

/// The pictures of a stacking context depend on what is drawn in it only through
/// the first of them.
proof fn lemma_pictures_alike<'a>(
    requests: Seq<InternRequest<'a>>,
    pictures: Seq<PicturePrimitive<Instances>>,
    after_requests: Seq<InternRequest<'a>>,
    after: Seq<PicturePrimitive<Instances>>,
    sc: Context,
    other: Context,
    drawn: Instances,
    blends: bool,
)
    requires
        adds_context_pictures(requests, pictures, after_requests, after, sc, drawn, blends),
        sc == (Context { primitives: sc.primitives, ..other }),
    ensures
        adds_context_pictures(requests, pictures, after_requests, after, other, drawn, blends),
{
}

/// The part of what is drawn that is cached: from the first to the last instance
/// that scrolls, or all where none does.
pub open spec fn cached_part(
    tree: Seq<SpatialNode>,
    drawn: Instances,
    first: int,
    end: int,
) -> bool {
    &&& 0 <= first <= end <= drawn.len()
    &&& forall|i: int|
        0 <= i < drawn.len() && scrolls(tree, #[trigger] drawn[i]) ==> first <= i < end
    &&& first < end && scrolls(tree, drawn[first]) && scrolls(tree, drawn[end - 1]) || {
        &&& first == 0 && end == drawn.len()
        &&& forall|i: int| 0 <= i < drawn.len() ==> !scrolls(tree, #[trigger] drawn[i])
    }
}

/// The picture that what is cached is drawn into: white, in screen space, and
/// moving with its scroll root. Its tiles share the root clip of the pipeline.
pub open spec fn cache_picture(
    state: FlattenerState,
    cached: Instances,
    scroll_root: SpatialNodeIndex,
) -> PicturePrimitive<Instances> {
    let one = F32 { bits: 0x3f80_0000 };
    PicturePrimitive {
        requested_composite_mode: Some(
            PictureCompositeMode::TileCache {
                clear_color: ColorF { r: one, g: one, b: one, a: one },
            },
        ),
        context_3d: Picture3DContext::Out,
        pipeline_id: state.scene.root_pipeline_id->0,
        frame_output_pipeline_id: None,
        apply_local_clip_rect: true,
        requested_raster_space: RasterSpace::Screen,
        prim_list: cached,
        spatial_node_index: scroll_root,
        local_clip_rect: LayoutRect::Max,
        tile_cache: Some(
            TileCache {
                spatial_node_index: scroll_root,
                root_clip_chain_id: state.pipeline_clip_chain_stack.last(),
            },
        ),
        options: None,
        optimize: false,
    }
}

/// A stacking context that is cached becomes pictures like others; but of what was
/// drawn in it, the part from the first to the last instance that scrolls, or all
/// where none does, is drawn into a cache, which stands in its place.
pub proof fn law_cached_context_ends<'a>(state: FlattenerState<'a>, node_is_identity: bool) -> (
    part: (int, int))
    requires
        state.wf(),
        state.sc_stack.len() > 0,
        !top_does_nothing(state, node_is_identity),
        top_is_cached(state),
        state.pop_stacking_context(node_is_identity).prim_store.pictures.len() <= usize::MAX,
    ensures
        ({
            let after = state.pop_stacking_context(node_is_identity);
            let sc = state.sc_stack.last();
            let drawn = sc.primitives;
            let (first, end) = part;
            let root = if first < end && scrolls(state.tree, drawn[first]) {
                scroll_root(state.tree, drawn[first].spatial_node_index)
            } else {
                SpatialNodeIndex { index: 0 }
            };
            let cache = picture_as_it_is(
                root,
                state.requests.len() as int,
                state.prim_store.pictures.len() as int,
            );
            &&& cached_part(state.tree, drawn, first, end)
            &&& same_but_drawn(state, after)
            &&& adds_context_pictures(
                state.requests.push(picture_data::<'a>(true, PictureCompositeKey::Identity)),
                state.prim_store.pictures.push(
                    cache_picture(state, drawn.subrange(first, end), root),
                ),
                after.requests,
                after.prim_store.pictures,
                sc,
                drawn.subrange(0, first) + seq![cache] + drawn.subrange(end, drawn.len() as int),
                top_blends(state),
            )
            &&& draws_outermost(state, after, top_blends(state))
        }),
{
    lemma_does_nothing(state, node_is_identity);
    let sc = state.sc_stack.last();
    let drawn = sc.primitives;
    let below = FlattenerState { sc_stack: state.sc_stack.drop_last(), ..state };
    let parent_is_empty = below.sc_stack.len() == 0 || below.sc_stack.last().primitives.len() == 0;
    lemma_caches(state, drawn);
    let cached = below.setup_picture_caching(drawn);
    let prims = below.cached_primitives(drawn);
    let cached_sc = Context { primitives: prims, ..sc };
    let chain = cached.context_pictures(cached_sc, parent_is_empty);
    lemma_context_pictures_only(cached, cached_sc, parent_is_empty);
    lemma_adds_context_pictures(cached, cached_sc, parent_is_empty);
    let r = cached.requests.len() as int;
    let n = cached.prim_store.pictures.len() as int;
    let after = state.pop_stacking_context(node_is_identity);
    assert(after.prim_store == chain.state.prim_store);
    lemma_draws_outermost(state, chain, r, n, top_blends(state));
    lemma_unscrolled_before(state.tree, drawn);
    lemma_scrolled_until(state.tree, drawn);
    let cut = caching_cut(state.tree, drawn);
    let first = cut.preceding.len() as int;
    let end = drawn.len() - cut.trailing.len();
    assert(cut.cached =~= drawn.subrange(first, end));
    let root = cut.scroll_root;
    let cache = picture_as_it_is(
        root,
        state.requests.len() as int,
        state.prim_store.pictures.len() as int,
    );
    assert(prims =~= drawn.subrange(0, first) + seq![cache] + drawn.subrange(
        end,
        drawn.len() as int,
    ));
    assert forall|i: int| 0 <= i < drawn.len() && scrolls(state.tree, #[trigger] drawn[i]) implies
        first <= i < end by {
        assert(is_scrolled(state.tree, drawn[i]));
    }
    assert(cached_part(state.tree, drawn, first, end));
    let blends = top_blends(state);
    let given = picture_data::<'a>(true, PictureCompositeKey::Identity);
    let picture = cache_picture(state, drawn.subrange(first, end), root);
    assert(cached.requests == state.requests.push(given));
    assert(cached.prim_store.pictures == state.prim_store.pictures.push(picture));
    assert(adds_context_pictures(
        cached.requests,
        cached.prim_store.pictures,
        after.requests,
        after.prim_store.pictures,
        cached_sc,
        prims,
        blends,
    ));
    lemma_pictures_alike(
        cached.requests,
        cached.prim_store.pictures,
        after.requests,
        after.prim_store.pictures,
        cached_sc,
        sc,
        prims,
        blends,
    );
    assert(root == if first < end && scrolls(state.tree, drawn[first]) {
        scroll_root(state.tree, drawn[first].spatial_node_index)
    } else {
        SpatialNodeIndex { index: 0 }
    });
    (first, end)
}

/// Whether `node` is the positioning node of the nearest stacking context, from
/// the top of a stack, that is not preserve-3d; the root where all are.
pub open spec fn is_containing_block(stack: Seq<Context>, node: SpatialNodeIndex) -> bool {
    ||| exists|place: int|
        0 <= place < stack.len() && !preserves_3d(#[trigger] stack[place]) && node
            == stack[place].spatial_node_index && forall|i: int|
            place < i < stack.len() ==> preserves_3d(#[trigger] stack[i])
    ||| node == (SpatialNodeIndex { index: 0 }) && forall|i: int|
        0 <= i < stack.len() ==> preserves_3d(#[trigger] stack[i])
}

pub proof fn lemma_containing_block(stack: Seq<Context>)
    ensures
        is_containing_block(stack, containing_block(stack)),
    decreases stack.len(),
{
    if stack.len() > 0 {
        if !stack.last().is_3d() {
            assert(!preserves_3d(stack[stack.len() - 1]));
        } else {
            let below = stack.drop_last();
            lemma_containing_block(below);
            assert(preserves_3d(stack[stack.len() - 1]));
            if forall|i: int| 0 <= i < below.len() ==> preserves_3d(#[trigger] below[i]) {
                assert forall|i: int| 0 <= i < stack.len() implies preserves_3d(
                    #[trigger] stack[i],
                ) by {
                    if i < below.len() {
                        assert(below[i] == stack[i]);
                    }
                }
            } else {
                let place = choose|place: int|
                    0 <= place < below.len() && !preserves_3d(#[trigger] below[place])
                        && containing_block(below) == below[place].spatial_node_index && forall|
                        i: int,
                    |
                        place < i < below.len() ==> preserves_3d(#[trigger] below[i]);
                assert(stack[place] == below[place]);
                assert forall|i: int| place < i < stack.len() implies preserves_3d(
                    #[trigger] stack[i],
                ) by {
                    if i < below.len() {
                        assert(below[i] == stack[i]);
                    }
                }
            }
        }
    }
}

/// Whether a stacking context begins as it is asked for, on top of a stack. It has
/// drawn nothing yet, and needs a surface of its own if it has a clip. It is in a
/// 3D hierarchy if it composites nothing, and it or its parent is preserve-3d; it
/// is the root of the hierarchy where its parent is not. The first stacking
/// context of a pipeline is provided as a texture, if the embedder wants that.
pub open spec fn begins(
    before: FlattenerState,
    sc: Context,
    pipeline_id: PipelineId,
    filters: Seq<FilterOp>,
    mix_blend_mode: Option<MixBlendMode>,
    transform_style: TransformStyle,
    is_backface_visible: bool,
    create_tile_cache: bool,
    spatial_node_index: SpatialNodeIndex,
    clip_chain_id: ClipChainId,
    raster_space: RasterSpace,
) -> bool {
    let stack = before.sc_stack;
    let parent_preserves_3d = stack.len() > 0 && preserves_3d(stack.last());
    &&& sc.primitives.len() == 0
    &&& sc.is_backface_visible == is_backface_visible
    &&& sc.requested_raster_space == raster_space
    &&& sc.spatial_node_index == spatial_node_index
    &&& sc.clip_chain_id == clip_chain_id
    &&& sc.composite_ops.filters == filters
    &&& sc.composite_ops.mix_blend_mode == mix_blend_mode
    &&& !sc.blit_reason.preserve_3d && !sc.blit_reason.isolate
    &&& sc.blit_reason.clip <==> clip_chain_id != ClipChainId::Unclipped
    &&& sc.pipeline_id == pipeline_id
    &&& sc.transform_style == transform_style
    &&& sc.create_tile_cache == create_tile_cache
    &&& sc.frame_output_pipeline_id == if before.output_pipelines@.contains(
        pipeline_number(pipeline_id),
    ) && (stack.len() == 0 || stack.last().pipeline_id != pipeline_id) {
        Some(pipeline_id)
    } else {
        None
    }
    &&& if filters.len() == 0 && mix_blend_mode is None && (transform_style is Preserve3D
        || parent_preserves_3d) {
        &&& sc.context_3d matches Picture3DContext::In { root_data, ancestor_index }
        &&& is_containing_block(stack, ancestor_index)
        &&& match root_data {
            Some(collected) => !parent_preserves_3d && collected.len() == 0,
            None => parent_preserves_3d,
        }
    } else {
        sc.context_3d is Out
    }
}

/// Whether the flat children of a preserve-3d stacking context at the top of a
/// stack, if it has any, are put into a picture of their own, which comes last in
/// what is collected for the 3D hierarchy. So what follows comes after them.
pub open spec fn cuts_flat_children<'a>(
    before: FlattenerState<'a>,
    after: FlattenerState<'a>,
    stack: Seq<Context>,
) -> bool {
    let top = before.sc_stack.last();
    if before.sc_stack.len() > 0 && preserves_3d(top) && top.primitives.len() > 0 {
        let emptied = before.sc_stack.drop_last().push(
            FlattenedStackingContext { primitives: Seq::empty(), ..top },
        );
        let instance = PrimitiveInstance {
            clip_chain_id: top.clip_chain_id,
            ..picture_as_it_is(
                top.spatial_node_index,
                before.requests.len() as int,
                before.prim_store.pictures.len() as int,
            )
        };
        &&& exists|place: int| collects_last(emptied, stack, place, instance)
        &&& after.requests == before.requests.push(
            picture_data::<'a>(top.is_backface_visible, PictureCompositeKey::Identity),
        )
        &&& top.context_3d matches Picture3DContext::In { ancestor_index, .. }
            && after.prim_store.pictures == before.prim_store.pictures.push(
            picture_for(
                top,
                Some(
                    PictureCompositeMode::Blit(
                        BlitReason { preserve_3d: true, clip: false, isolate: false },
                    ),
                ),
                Picture3DContext::In { root_data: None, ancestor_index },
                None,
                top.primitives,
                false,
            ),
        )
    } else {
        &&& stack == before.sc_stack
        &&& after.requests == before.requests
        &&& after.prim_store.pictures == before.prim_store.pictures
    }
}

proof fn lemma_cuts_flat_children<'a>(state: FlattenerState<'a>)
    requires
        state.wf(),
    ensures
        cuts_flat_children(state, state.cut_flat_items(), state.cut_flat_items().sc_stack),
        same_but_drawn(state, state.cut_flat_items()),
        state.cut_flat_items().root_pic_index == state.root_pic_index,
{
    let after = state.cut_flat_items();
    if state.sc_stack.len() > 0 && state.sc_stack.last().has_flat_items() {
        let top = state.sc_stack.last();
        let last = state.sc_stack.len() - 1;
        let emptied = state.sc_stack.drop_last().push(
            FlattenedStackingContext { primitives: Seq::empty(), ..top },
        );
        assert(hierarchy_whole_at(state.sc_stack, last));
        assert forall|i: int| 0 <= i < emptied.len() implies #[trigger] hierarchy_whole_at(
            emptied,
            i,
        ) by {
            assert(hierarchy_whole_at(state.sc_stack, i));
        }
        lemma_root_place(emptied);
        let instance = PrimitiveInstance {
            clip_chain_id: top.clip_chain_id,
            ..picture_as_it_is(
                top.spatial_node_index,
                state.requests.len() as int,
                state.prim_store.pictures.len() as int,
            )
        };
        assert(collects_last(emptied, after.sc_stack, root_3d_place(emptied), instance));
    }
}

/// A stacking context of a display list, that is not empty, begins as it is listed,
/// clipped by the chain that its clip is mapped to. What is in it is placed
/// relative to its corner. If it is clipped, the root clip of the pipeline does not
/// clip what is in it.
pub proof fn law_context_begins<'a>(
    before: Flattening<'a>,
    item: DisplayItem,
    place: ScrollNodeAndClipChain,
    info: LayoutPrimitiveInfo,
    stacking_context: StackingContext,
    filters: &'a Vec<FilterOp>,
    clip_chain_id: ClipChainId,
)
    requires
        before.wf(),
        listed_next(before, item, place, info),
        item.item == (SpecificDisplayItem::PushStackingContext {
            stacking_context,
            filters: *filters,
        }),
        before.frames.last().cursor + 1 < before.frames.last().list@.len(),
        !(before.frames.last().list@[before.frames.last().cursor + 1].item is PopStackingContext),
        match stacking_context.clip_id {
            Some(id) => {
                &&& before.state.mapping.clips.contains_key(id)
                &&& clip_chain_id == before.state.mapping.clips[id].id
            },
            None => clip_chain_id == ClipChainId::Unclipped,
        },
    ensures
        before.step().result == Ok::<FlattenStep, FlattenError>(FlattenStep::Continue),
        ({
            let after = before.step().flattening.state;
            let top = before.frames.last();
            &&& same_but_drawn(before.state, after)
            &&& after.root_pic_index == before.state.root_pic_index
            &&& after.sc_stack.len() == before.state.sc_stack.len() + 1
            &&& cuts_flat_children(before.state, after, after.sc_stack.drop_last())
            &&& begins(
                before.state,
                after.sc_stack.last(),
                top.pipeline_id,
                filters@,
                stacking_context.mix_blend_mode,
                stacking_context.transform_style,
                item.is_backface_visible,
                stacking_context.cache_tiles,
                place.spatial_node_index,
                clip_chain_id,
                stacking_context.raster_space,
            )
            &&& opens_frame(
                before.frames,
                before.step().flattening.frames,
                Frame {
                    kind: FrameKind::StackingContext,
                    list: top.list,
                    cursor: (top.cursor + 1) as usize,
                    pipeline_id: top.pipeline_id,
                    offset: offset_to(top.offset, item.rect.origin),
                    apply_pipeline_clip: top.apply_pipeline_clip && clip_chain_id
                        == ClipChainId::Unclipped,
                },
            )
        }),
{
    reveal(Flattening::flatten_placed_item);
    assert(before.frames.last().list.len() == before.frames.last().list@.len());
    lemma_containing_block(before.state.sc_stack);
    lemma_cuts_flat_children(before.state);
    let after = before.step().flattening.state;
    assert(after.sc_stack.drop_last() =~= before.state.cut_flat_items().sc_stack);
}

/// An empty stacking context is passed, with the item that ends it, and changes
/// nothing.
pub proof fn law_empty_context_skipped<'a>(
    before: Flattening<'a>,
    item: DisplayItem,
    place: ScrollNodeAndClipChain,
    info: LayoutPrimitiveInfo,
)
    requires
        listed_next(before, item, place, info),
        item.item is PushStackingContext,
        before.frames.last().cursor + 1 < before.frames.last().list@.len()
            ==> before.frames.last().list@[before.frames.last().cursor + 1].item
            is PopStackingContext,
    ensures
        before.step().result == Ok::<FlattenStep, FlattenError>(FlattenStep::Continue),
        before.step().flattening.state == before.state,
        ({
            let top = before.frames.last();
            let after = before.step().flattening.frames;
            &&& after.len() == before.frames.len()
            &&& after.drop_last() == before.frames.drop_last()
            &&& after.last() == (Frame { cursor: after.last().cursor, ..top })
            &&& after.last().cursor == if top.cursor + 1 < top.list@.len() {
                top.cursor + 2
            } else {
                top.cursor + 1
            }
        }),
{
    reveal(Flattening::flatten_placed_item);
    assert(before.frames.last().list.len() == before.frames.last().list@.len());
    let after = before.step().flattening.frames;
    assert(after.drop_last() =~= before.frames.drop_last());
}

} // verus!
