//! That a scene is sound after every step.
use vstd::prelude::*;

use crate::clip_store::{clip_id_within, ClipItemKey, ClipRegion};
use crate::display_list::{
    BorderDetails, DisplayItem, NinePatchBorderSource, ReferenceFrame, SpaceAndClipInfo,
    SpecificDisplayItem, StackingContext,
};
use crate::growth::{lemma_build_clip_chain_grows, lemma_grows_trans};
use crate::ids::{
    ApiClipChainId, ClipChainId, ClipId, ExternalScrollId, PictureIndex, PipelineId,
    ScrollNodeAndClipChain, SpatialId, SpatialNodeIndex,
};
use crate::items::{
    line_cache_key, line_clip_rect, linear_gradient, nine_patch_descriptor,
    nine_patch_stretch_size, radial_gradient, yuv_planes,
};
use crate::layout::{LayoutPoint, LayoutRect, LayoutSize, LayoutVector2D, SizeF, Tiling};
use crate::picture::{FilterOp, PictureCompositeKey, PictureCompositeMode};
use crate::primitives::{
    Image, ImageBorder, ImageRendering, ImageRequest, Internable, IsVisible, LayoutPrimitiveInfo,
    LineDecoration, Primitive, PrimitiveKeyKind, YuvImage,
};
use crate::references::{
    context_refers, law_add_nonshadowable_primitive_refers, law_add_primitive_refers,
    law_pop_all_shadows_refers, law_pop_stacking_context_refers,
    law_push_stacking_context_refers, lemma_more_stored, picture_refers_back,
};
use crate::shadows::{PendingPrimitive, PendingShadow, ShadowItem};
use crate::soundness::{
    clip_stored, context_placed, law_add_nonshadowable_primitive_wf, law_add_primitive_wf,
    law_pop_all_shadows_wf, law_pop_stacking_context_wf, law_push_stacking_context_wf,
    lemma_add_clip_wf, lemma_add_pending_wf, lemma_add_spatial_node_wf, lemma_link_clips_keeps,
    lemma_link_clips_wf, lemma_map_clip_wf, pending_place,
};
use crate::spatial_tree::ScrollSensitivity;
use crate::stacking_context::CompositeOps;
use crate::state::{
    leaf_composite_mode, leaf_picture, lemma_build_clip_chain_keeps, region_items, FlattenerState,
};
use crate::traversal::{
    at_end_of_frame, item_clip_and_scroll, past, stacking_context_empty, FlattenError,
    FlattenStep, Flattening, Frame, FrameKind, Outcome,
};

verus! {

/// Whether a frame stands for a stacking context.
pub open spec fn holds_context(kind: FrameKind) -> bool {
    kind is Root || kind is StackingContext || kind is ClosingStackingContext
}

/// The number of frames that stand for stacking contexts.
pub open spec fn contexts_open(frames: Seq<Frame>) -> nat
    decreases frames.len(),
{
    if frames.len() == 0 {
        0
    } else {
        contexts_open(frames.drop_last()) + if holds_context(frames.last().kind) {
            1nat
        } else {
            0
        }
    }
}

/// The number of frames that stand for iframes.
pub open spec fn iframes_open(frames: Seq<Frame>) -> nat
    decreases frames.len(),
{
    if frames.len() == 0 {
        0
    } else {
        iframes_open(frames.drop_last()) + if frames.last().kind is Iframe {
            1nat
        } else {
            0
        }
    }
}

/// Whether a frame fits its place in the stack: the lowest stands for the root
/// pipeline, only the topmost may be closing, and all but iframes are in the
/// display list of the frame below.
pub open spec fn frame_ok_at(frames: Seq<Frame>, i: int) -> bool {
    &&& frames[i].cursor <= frames[i].list@.len()
    &&& frames[i].kind is Root <==> i == 0
    &&& i < frames.len() - 1 ==> !(frames[i].kind is ClosingStackingContext)
    &&& 0 < i && !(frames[i].kind is Iframe) ==> frames[i].list == frames[i - 1].list
}

/// Whether all frames fit their places.
pub open spec fn frames_ok(frames: Seq<Frame>) -> bool {
    forall|i: int| 0 <= i < frames.len() ==> #[trigger] frame_ok_at(frames, i)
}

impl<'a> Flattening<'a> {
    /// What holds between two steps: the state is sound, all references are in
    /// order, and the stacks of stacking contexts and of root clip chains are as
    /// high as the frames say.
    pub open spec fn wf(self) -> bool {
        &&& self.state.wf()
        &&& self.state.references_ok()
        &&& frames_ok(self.frames)
        &&& contexts_open(self.frames) == self.state.sc_stack.len()
        &&& iframes_open(self.frames) + 1 == self.state.pipeline_clip_chain_stack.len()
    }
}

/// While there are frames, there is a stacking context; with the root frame
/// alone, exactly one, and no iframe.
pub proof fn lemma_contexts_open(frames: Seq<Frame>)
    requires
        frames_ok(frames),
        frames.len() > 0,
    ensures
        contexts_open(frames) > 0,
        frames.len() == 1 ==> contexts_open(frames) == 1 && iframes_open(frames) == 0,
    decreases frames.len(),
{
    reveal_with_fuel(contexts_open, 2);
    reveal_with_fuel(iframes_open, 2);
    assert(frame_ok_at(frames, 0));
    if frames.len() > 1 {
        let below = frames.drop_last();
        lemma_drop_frame_ok(frames);
        lemma_contexts_open(below);
    }
}

/// The frames without the topmost fit their places.
proof fn lemma_drop_frame_ok(frames: Seq<Frame>)
    requires
        frames_ok(frames),
        frames.len() > 0,
    ensures
        frames_ok(frames.drop_last()),
{
    let below = frames.drop_last();
    assert forall|i: int| 0 <= i < below.len() implies #[trigger] frame_ok_at(below, i) by {
        assert(frame_ok_at(frames, i));
    }
}

/// Another topmost frame fits its place, where it is as the one before in all
/// that this depends on.
pub proof fn lemma_replace_top_ok(frames: Seq<Frame>, frame: Frame)
    requires
        frames_ok(frames),
        frames.len() > 0,
        frame.cursor <= frame.list@.len(),
        frame.list == frames.last().list,
        frame.kind is Root == frames.last().kind is Root,
        frame.kind is Iframe == frames.last().kind is Iframe,
        holds_context(frame.kind) == holds_context(frames.last().kind),
    ensures
        frames_ok(frames.drop_last().push(frame)),
        contexts_open(frames.drop_last().push(frame)) == contexts_open(frames),
        iframes_open(frames.drop_last().push(frame)) == iframes_open(frames),
{
    let after = frames.drop_last().push(frame);
    assert(after.drop_last() =~= frames.drop_last());
    assert forall|i: int| 0 <= i < after.len() implies #[trigger] frame_ok_at(after, i) by {
        assert(frame_ok_at(frames, i));
    }
}

/// Moving the cursor within the display list keeps the invariant.
pub proof fn lemma_with_cursor_wf(flattening: Flattening, cursor: usize)
    requires
        flattening.wf(),
        flattening.frames.len() > 0,
        cursor <= flattening.top().list@.len(),
    ensures
        flattening.with_cursor(cursor).wf(),
{
    lemma_replace_top_ok(flattening.frames, Frame { cursor, ..flattening.top() });
}

/// A frame that is opened fits its place.
proof fn lemma_open_frame_ok(frames: Seq<Frame>, frame: Frame)
    requires
        frames_ok(frames),
        frames.len() > 0,
        !(frames.last().kind is ClosingStackingContext),
        frame.cursor <= frame.list@.len(),
        !(frame.kind is Root),
        frame.kind is Iframe || frame.list == frames.last().list,
    ensures
        frames_ok(frames.push(frame)),
        contexts_open(frames.push(frame)) == contexts_open(frames) + if holds_context(frame.kind) {
            1nat
        } else {
            0
        },
        iframes_open(frames.push(frame)) == iframes_open(frames) + if frame.kind is Iframe {
            1nat
        } else {
            0
        },
{
    let after = frames.push(frame);
    assert(after.drop_last() =~= frames);
    assert forall|i: int| 0 <= i < after.len() implies #[trigger] frame_ok_at(after, i) by {
        if i < frames.len() {
            assert(frame_ok_at(frames, i));
        }
    }
}

/// When the topmost frame is closed, all frames still fit their places.
proof fn lemma_close_frame_ok(flattening: Flattening)
    requires
        frames_ok(flattening.frames),
        flattening.frames.len() > 0,
    ensures
        ({
            let after = flattening.close_frame();
            &&& after.state == flattening.state
            &&& frames_ok(after.frames)
            &&& after.frames.len() == flattening.frames.len() - 1
            &&& contexts_open(after.frames) == contexts_open(flattening.frames.drop_last())
            &&& iframes_open(after.frames) == iframes_open(flattening.frames.drop_last())
        }),
{
    let frames = flattening.frames;
    let below = frames.drop_last();
    lemma_drop_frame_ok(frames);
    let last = frames.len() - 1;
    assert(frame_ok_at(frames, last));
    if last > 0 && !(frames.last().kind is Iframe) {
        assert(frame_ok_at(frames, last - 1));
        lemma_replace_top_ok(below, Frame { cursor: frames.last().cursor, ..below.last() });
    }
}

/// Where an item that is not refused is placed, and what clips it, are there.
proof fn lemma_item_placed(state: FlattenerState, item: DisplayItem, apply_pipeline_clip: bool)
    requires
        state.wf(),
    ensures
        item_clip_and_scroll(state, item, apply_pipeline_clip) matches Ok(cs) ==> {
            &&& cs.spatial_node_index.index < state.tree.len()
            &&& clip_id_within(cs.clip_chain_id, state.clip_nodes.len())
        },
{
    let clip_id = item.space_and_clip.clip_id;
    if state.mapping.clips.contains_key(clip_id) {
        assert(clip_stored(state.mapping.clips[clip_id], state.clip_nodes));
    }
}

/// The frames at the root of a pipeline keep the invariant.
proof fn lemma_add_pipeline_frames_wf(
    state: FlattenerState,
    pipeline_id: PipelineId,
    parent_index: SpatialNodeIndex,
    origin: LayoutVector2D,
    viewport_size: SizeF,
    content_size: SizeF,
)
    requires
        state.wf(),
        parent_index.index < state.tree.len(),
        state.add_pipeline_frames(
            pipeline_id,
            Some(parent_index),
            origin,
            viewport_size,
            content_size,
        ).fits(),
    ensures
        ({
            let after = state.add_pipeline_frames(
                pipeline_id,
                Some(parent_index),
                origin,
                viewport_size,
                content_size,
            );
            &&& after.wf()
            &&& after == (FlattenerState { tree: after.tree, mapping: after.mapping, ..state })
        }),
{
    let after = state.add_pipeline_frames(
        pipeline_id,
        Some(parent_index),
        origin,
        viewport_size,
        content_size,
    );
    let node_1 = after.tree[state.tree.len() as int];
    let node_2 = after.tree.last();
    let first = state.add_spatial_node(SpatialId::root_reference_frame(pipeline_id), node_1);
    lemma_add_spatial_node_wf(
        state,
        SpatialId::root_reference_frame(pipeline_id),
        node_1,
    );
    lemma_add_spatial_node_wf(first, SpatialId::root_scroll_node(pipeline_id), node_2);
}

/// Whether the invariant holds after a step that succeeds.
spec fn keeps(outcome: Outcome) -> bool {
    outcome.result is Ok && outcome.flattening.state.fits() ==> outcome.flattening.wf()
}

/// The start of a stacking context keeps the invariant.
proof fn lemma_flatten_stacking_context_wf(
    flattening: Flattening,
    item: DisplayItem,
    stacking_context: StackingContext,
    filters: Seq<FilterOp>,
    spatial_node_index: SpatialNodeIndex,
)
    requires
        flattening.wf(),
        flattening.frames.len() > 0,
        !(flattening.top().kind is ClosingStackingContext),
        spatial_node_index.index < flattening.state.tree.len(),
    ensures
        keeps(
            flattening.flatten_stacking_context(
                item,
                stacking_context,
                filters,
                spatial_node_index,
            ),
        ),
{
    let top = flattening.top();
    let outcome = flattening.flatten_stacking_context(
        item,
        stacking_context,
        filters,
        spatial_node_index,
    );
    let last = flattening.frames.len() - 1;
    assert(frame_ok_at(flattening.frames, last));
    if stacking_context_empty(top.list@, top.cursor as int) {
        lemma_replace_top_ok(
            flattening.frames,
            Frame { cursor: past(top.list@, top.cursor), ..top },
        );
    } else if outcome.result is Ok {
        let clip_chain_id = match stacking_context.clip_id {
            Some(clip_id) => flattening.state.mapping.clips[clip_id].id,
            None => ClipChainId::Unclipped,
        };
        lemma_contexts_open(flattening.frames);
        let composite_ops = CompositeOps {
            filters,
            mix_blend_mode: stacking_context.mix_blend_mode,
        };
        law_push_stacking_context_wf(
            flattening.state,
            top.pipeline_id,
            composite_ops,
            stacking_context.transform_style,
            item.is_backface_visible,
            stacking_context.cache_tiles,
            spatial_node_index,
            clip_chain_id,
            stacking_context.raster_space,
        );
        if outcome.flattening.state.fits() {
            law_push_stacking_context_refers(
                flattening.state,
                top.pipeline_id,
                composite_ops,
                stacking_context.transform_style,
                item.is_backface_visible,
                stacking_context.cache_tiles,
                spatial_node_index,
                clip_chain_id,
                stacking_context.raster_space,
            );
        }
        lemma_open_frame_ok(flattening.frames, outcome.flattening.frames.last());
    }
}

/// The start of a reference frame keeps the invariant.
proof fn lemma_flatten_reference_frame_wf(
    flattening: Flattening,
    item: DisplayItem,
    reference_frame: ReferenceFrame,
    parent_spatial_node: SpatialNodeIndex,
)
    requires
        flattening.wf(),
        flattening.state.fits(),
        flattening.frames.len() > 0,
        !(flattening.top().kind is ClosingStackingContext),
        parent_spatial_node.index < flattening.state.tree.len(),
    ensures
        keeps(
            flattening.flatten_reference_frame(item, reference_frame, parent_spatial_node),
        ),
{
    let outcome = flattening.flatten_reference_frame(item, reference_frame, parent_spatial_node);
    let last = flattening.frames.len() - 1;
    assert(frame_ok_at(flattening.frames, last));
    lemma_add_spatial_node_wf(
        flattening.state,
        reference_frame.id,
        outcome.flattening.state.tree.last(),
    );
    lemma_more_stored(flattening.state, outcome.flattening.state);
    lemma_open_frame_ok(flattening.frames, outcome.flattening.frames.last());
}

/// The start of an iframe keeps the invariant.
proof fn lemma_flatten_iframe_wf(
    flattening: Flattening,
    item: DisplayItem,
    iframe_pipeline_id: PipelineId,
    spatial_node_index: SpatialNodeIndex,
)
    requires
        flattening.wf(),
        flattening.state.fits(),
        flattening.frames.len() > 0,
        !(flattening.top().kind is ClosingStackingContext),
        spatial_node_index.index < flattening.state.tree.len(),
    ensures
        keeps(
            flattening.flatten_iframe(item, iframe_pipeline_id, spatial_node_index),
        ),
{
    let state = flattening.state;
    let top = flattening.top();
    let outcome = flattening.flatten_iframe(item, iframe_pipeline_id, spatial_node_index);
    let after = outcome.flattening.state;
    if state.scene.pipelines@.contains_key(iframe_pipeline_id.key()) && outcome.result is Ok
        && after.fits() {
        let root = ClipId::root(iframe_pipeline_id);
        let region = ClipRegion::create_for_clip_node_with_local_clip(item.clip_rect, top.offset);
        let clipped = state.add_clip_node(root, item.space_and_clip, region);
        lemma_build_clip_chain_keeps(
            state,
            region_items(region),
            state.mapping.spatial[item.space_and_clip.spatial_id],
            state.mapping.clips[item.space_and_clip.clip_id].id,
        );
        assert(clipped.tree == state.tree);
        lemma_add_clip_wf(state, root, item.space_and_clip, region);
        assert(clip_stored(clipped.mapping.clips[root], clipped.clip_nodes));
        let pushed = FlattenerState {
            pipeline_clip_chain_stack: clipped.pipeline_clip_chain_stack.push(
                clipped.mapping.clips[root].id,
            ),
            ..clipped
        };
        assert forall|i: int| 0 <= i < pushed.pipeline_clip_chain_stack.len() implies
            clip_id_within(
            #[trigger] pushed.pipeline_clip_chain_stack[i],
            pushed.clip_nodes.len(),
        ) by {
            if i < clipped.pipeline_clip_chain_stack.len() {
                assert(pushed.pipeline_clip_chain_stack[i]
                    == clipped.pipeline_clip_chain_stack[i]);
            }
        }
        let pipeline = state.scene.pipelines@[iframe_pipeline_id.key()];
        lemma_add_pipeline_frames_wf(
            pushed,
            iframe_pipeline_id,
            spatial_node_index,
            top.offset.plus_point(item.rect.origin),
            item.rect.size,
            pipeline.content_size,
        );
        lemma_more_stored(state, after);
        lemma_open_frame_ok(flattening.frames, outcome.flattening.frames.last());
    }
}

/// A clip keeps the invariant.
proof fn lemma_flatten_clip_wf(
    flattening: Flattening,
    item: DisplayItem,
    id: ClipId,
    region: ClipRegion,
)
    requires
        flattening.wf(),
    ensures
        keeps(flattening.flatten_clip(item, id, region)),
{
    let state = flattening.state;
    if state.mapping.clips.contains_key(item.space_and_clip.clip_id) {
        lemma_add_clip_keeps(state, id, item.space_and_clip, region);
        lemma_more_stored(state, state.add_clip_node(id, item.space_and_clip, region));
        if state.add_clip_node(id, item.space_and_clip, region).fits() {
            lemma_add_clip_wf(state, id, item.space_and_clip, region);
        }
    }
}

/// A clip changes nothing but the clip store, the interned data and the mapping.
pub proof fn lemma_add_clip_keeps(
    state: FlattenerState,
    id: ClipId,
    space_and_clip: SpaceAndClipInfo,
    region: ClipRegion,
)
    ensures
        ({
            let after = state.add_clip_node(id, space_and_clip, region);
            &&& after == (FlattenerState {
                clip_nodes: after.clip_nodes,
                requests: after.requests,
                mapping: after.mapping,
                ..state
            })
            &&& after.requests.len() >= state.requests.len()
        }),
{
    lemma_build_clip_chain_keeps(
        state,
        region_items(region),
        state.mapping.spatial[space_and_clip.spatial_id],
        state.mapping.clips[space_and_clip.clip_id].id,
    );
}

/// A scroll frame keeps the invariant.
proof fn lemma_flatten_scroll_frame_wf(
    flattening: Flattening,
    item: DisplayItem,
    clip_id: ClipId,
    region: ClipRegion,
    scroll_frame_id: SpatialId,
    external_id: Option<ExternalScrollId>,
    scroll_sensitivity: ScrollSensitivity,
    parent_node_index: SpatialNodeIndex,
)
    requires
        flattening.wf(),
        flattening.state.fits(),
        parent_node_index.index < flattening.state.tree.len(),
    ensures
        keeps(
            flattening.flatten_scroll_frame(
                item,
                clip_id,
                region,
                scroll_frame_id,
                external_id,
                scroll_sensitivity,
                parent_node_index,
            ),
        ),
{
    let state = flattening.state;
    let outcome = flattening.flatten_scroll_frame(
        item,
        clip_id,
        region,
        scroll_frame_id,
        external_id,
        scroll_sensitivity,
        parent_node_index,
    );
    if outcome.result is Ok && outcome.flattening.state.fits() {
        lemma_add_clip_keeps(state, clip_id, item.space_and_clip, region);
        lemma_add_clip_wf(state, clip_id, item.space_and_clip, region);
        lemma_add_spatial_node_wf(
            state.add_clip_node(clip_id, item.space_and_clip, region),
            scroll_frame_id,
            outcome.flattening.state.tree.last(),
        );
        lemma_more_stored(state, outcome.flattening.state);
    }
}

/// A clip chain keeps the invariant.
proof fn lemma_flatten_clip_chain_wf(
    flattening: Flattening,
    id: ApiClipChainId,
    parent: Option<ApiClipChainId>,
    clip_ids: Seq<ClipId>,
)
    requires
        flattening.wf(),
    ensures
        keeps(flattening.flatten_clip_chain(id, parent, clip_ids)),
{
    let state = flattening.state;
    let outcome = flattening.flatten_clip_chain(id, parent, clip_ids);
    if outcome.result is Ok && outcome.flattening.state.fits() {
        let parent_clip_chain_id = match parent {
            Some(parent_id) => state.mapping.clips[ClipId::ClipChain(parent_id)].id,
            None => state.pipeline_clip_chain_stack.last(),
        };
        if let Some(parent_id) = parent {
            assert(clip_stored(
                state.mapping.clips[ClipId::ClipChain(parent_id)],
                state.clip_nodes,
            ));
        } else {
            let last = state.pipeline_clip_chain_stack.len() - 1;
            assert(clip_id_within(state.pipeline_clip_chain_stack[last], state.clip_nodes.len()));
        }
        lemma_link_clips_keeps(state, clip_ids, parent_clip_chain_id);
        lemma_link_clips_wf(state, clip_ids, parent_clip_chain_id);
        lemma_map_clip_wf(
            state.link_clips(clip_ids, parent_clip_chain_id),
            ClipId::ClipChain(id),
            state.linked_clips(clip_ids, parent_clip_chain_id),
            0,
        );
        lemma_more_stored(state, outcome.flattening.state);
    }
}

/// A primitive that can cast a shadow keeps the invariant.
proof fn lemma_add_item_wf<'a, P: Internable<'a> + IsVisible>(
    state: FlattenerState<'a>,
    clip_and_scroll: ScrollNodeAndClipChain,
    info: LayoutPrimitiveInfo,
    prim: P,
    pending: spec_fn(PendingPrimitive<P>) -> ShadowItem<'a>,
    offset: LayoutVector2D,
)
    requires
        state.wf(),
        state.references_ok(),
        state.fits(),
        state.sc_stack.len() > 0,
        clip_and_scroll.spatial_node_index.index < state.tree.len(),
        clip_id_within(clip_and_scroll.clip_chain_id, state.clip_nodes.len()),
        pending_place(pending(PendingPrimitive { clip_and_scroll, info, prim }))
            == clip_and_scroll.spatial_node_index,
    ensures
        ({
            let after = state.add_item(clip_and_scroll, info, prim, pending, offset);
            &&& after.wf()
            &&& after.sc_stack.len() == state.sc_stack.len()
            &&& after.pipeline_clip_chain_stack == state.pipeline_clip_chain_stack
            &&& after.fits() ==> after.references_ok()
        }),
{
    if state.add_item(clip_and_scroll, info, prim, pending, offset).fits() {
        law_add_primitive_refers(
            state,
            clip_and_scroll,
            info,
            Seq::empty(),
            prim.key(),
            prim.visible(),
            pending(PendingPrimitive { clip_and_scroll, info, prim }),
            offset,
        );
    }
    law_add_primitive_wf(
        state,
        clip_and_scroll,
        info,
        Seq::empty(),
        prim.key(),
        prim.visible(),
        pending(PendingPrimitive { clip_and_scroll, info, prim }),
        offset,
    );
}

/// A primitive that casts no shadow keeps the invariant.
proof fn lemma_add_flat_item_wf<'a, P: Internable<'a> + IsVisible>(
    state: FlattenerState<'a>,
    clip_and_scroll: ScrollNodeAndClipChain,
    info: LayoutPrimitiveInfo,
    prim: P,
    offset: LayoutVector2D,
)
    requires
        state.wf(),
        state.references_ok(),
        state.fits(),
        state.sc_stack.len() > 0,
        clip_and_scroll.spatial_node_index.index < state.tree.len(),
        clip_id_within(clip_and_scroll.clip_chain_id, state.clip_nodes.len()),
    ensures
        ({
            let after = state.add_flat_item(clip_and_scroll, info, prim, offset);
            &&& after.wf()
            &&& after.sc_stack.len() == state.sc_stack.len()
            &&& after.pipeline_clip_chain_stack == state.pipeline_clip_chain_stack
            &&& after.fits() ==> after.references_ok()
        }),
{
    if state.add_flat_item(clip_and_scroll, info, prim, offset).fits() {
        law_add_nonshadowable_primitive_refers(
            state,
            clip_and_scroll,
            info,
            Seq::empty(),
            prim.key(),
            prim.visible(),
            offset,
        );
    }
    law_add_nonshadowable_primitive_wf(
        state,
        clip_and_scroll,
        info,
        Seq::empty(),
        prim.key(),
        prim.visible(),
        offset,
    );
}

/// An item that draws keeps the invariant.
proof fn lemma_flatten_drawn_item_wf<'a>(
    flattening: Flattening<'a>,
    item: &'a DisplayItem,
    cs: ScrollNodeAndClipChain,
)
    requires
        flattening.wf(),
        flattening.state.fits(),
        flattening.frames.len() > 0,
        cs.spatial_node_index.index < flattening.state.tree.len(),
        clip_id_within(cs.clip_chain_id, flattening.state.clip_nodes.len()),
        item.item is Image || item.item is YuvImage || item.item is Text || item.item is Rectangle
            || item.item is ClearRectangle || item.item is Line,
    ensures
        keeps(flattening.flatten_placed_item(item, cs)),
{
    reveal(Flattening::flatten_placed_item);
    let state = flattening.state;
    let offset = flattening.top().offset;
    let info = item.spec_get_layout_primitive_info(offset);
    lemma_contexts_open(flattening.frames);
    match item.item {
        SpecificDisplayItem::Image {
            stretch_size,
            tile_spacing,
            image_key,
            image_rendering,
            alpha_type,
            color,
            draws,
        } => {
            let tiling = Tiling {
                stretch_size: LayoutSize::Value(stretch_size),
                tile_spacing: LayoutSize::Value(tile_spacing),
                rect: info.rect,
            };
            lemma_add_item_wf(
                state,
                cs,
                LayoutPrimitiveInfo { rect: LayoutRect::Simplified(Box::new(tiling)), ..info },
                Image {
                    key: image_key,
                    tile_spacing: LayoutSize::SimplifiedSpacing(Box::new(tiling)),
                    stretch_size: LayoutSize::Value(stretch_size),
                    color,
                    sub_rect: None,
                    image_rendering,
                    alpha_type,
                    draws,
                    shadow: None,
                },
                |p| ShadowItem::Image(p),
                offset,
            );
        },
        SpecificDisplayItem::YuvImage {
            yuv_data,
            color_depth,
            color_space,
            image_rendering,
            draws,
        } => {
            let (plane_0, plane_1, plane_2) = yuv_planes(yuv_data);
            lemma_add_flat_item_wf(
                state,
                cs,
                info,
                YuvImage {
                    color_depth,
                    plane_0,
                    plane_1,
                    plane_2,
                    format: yuv_data.get_format(),
                    color_space,
                    image_rendering,
                    draws,
                },
                offset,
            );
        },
        SpecificDisplayItem::Text { font_key, color, glyphs, glyph_options, draws } => {
            lemma_add_item_wf(
                state,
                cs,
                info,
                state.text_run(offset, info, font_key, color, &glyphs, glyph_options, draws),
                |p| ShadowItem::TextRun(p),
                offset,
            );
        },
        SpecificDisplayItem::Rectangle { color, draws } => {
            lemma_more_stored(state, state.add_primitive_to_hit_testing_list(info, cs));
            lemma_add_item_wf(
                state,
                cs,
                info,
                PrimitiveKeyKind::Rectangle { color, draws, shadow: None },
                |p| ShadowItem::Primitive(p),
                offset,
            );
        },
        SpecificDisplayItem::ClearRectangle { draws } => {
            lemma_add_item_wf(
                state,
                cs,
                info,
                PrimitiveKeyKind::Clear { draws, shadow: None },
                |p| ShadowItem::Primitive(p),
                offset,
            );
        },
        SpecificDisplayItem::Line {
            wavy_line_thickness,
            orientation,
            color,
            style,
            sizes,
            draws,
        } => {
            lemma_add_item_wf(
                state,
                cs,
                LayoutPrimitiveInfo {
                    clip_rect: line_clip_rect(info, orientation, style, sizes),
                    ..info
                },
                LineDecoration {
                    cache_key: line_cache_key(wavy_line_thickness, orientation, style, sizes),
                    color,
                    draws,
                    shadow: None,
                },
                |p| ShadowItem::LineDecoration(p),
                offset,
            );
        },
        _ => {},
    }
}

/// A gradient, or a border, keeps the invariant.
proof fn lemma_flatten_gradient_wf<'a>(
    flattening: Flattening<'a>,
    item: &'a DisplayItem,
    cs: ScrollNodeAndClipChain,
)
    requires
        flattening.wf(),
        flattening.state.fits(),
        flattening.frames.len() > 0,
        cs.spatial_node_index.index < flattening.state.tree.len(),
        clip_id_within(cs.clip_chain_id, flattening.state.clip_nodes.len()),
        item.item is Gradient || item.item is RadialGradient || item.item is Border,
    ensures
        keeps(flattening.flatten_placed_item(item, cs)),
{
    reveal(Flattening::flatten_placed_item);
    let state = flattening.state;
    let offset = flattening.top().offset;
    let info = item.spec_get_layout_primitive_info(offset);
    lemma_contexts_open(flattening.frames);
    match item.item {
        SpecificDisplayItem::Gradient { gradient, stops, tile_size, tile_spacing, draws } => {
            if let Some(prim) = linear_gradient(
                info,
                gradient.start_point,
                gradient.end_point,
                &stops,
                gradient.extend_mode,
                LayoutSize::Value(tile_size),
                LayoutSize::Value(tile_spacing),
                None,
                draws,
            ) {
                lemma_add_flat_item_wf(state, cs, info, prim, offset);
            }
        },
        SpecificDisplayItem::RadialGradient { gradient, stops, tile_size, tile_spacing, draws } => {
            lemma_add_flat_item_wf(
                state,
                cs,
                info,
                radial_gradient(
                    info,
                    gradient,
                    &stops,
                    LayoutSize::Value(tile_size),
                    LayoutSize::Value(tile_spacing),
                    None,
                    draws,
                ),
                offset,
            );
        },
        SpecificDisplayItem::Border { border, stops, draws } => {
            if let BorderDetails::NinePatch(patch) = border.details {
                let nine_patch = nine_patch_descriptor(patch, border.widths);
                match patch.source {
                    NinePatchBorderSource::Image(key) => {
                        lemma_add_flat_item_wf(
                            state,
                            cs,
                            info,
                            ImageBorder {
                                request: ImageRequest { key, rendering: ImageRendering::Auto },
                                nine_patch,
                                draws,
                            },
                            offset,
                        );
                    },
                    NinePatchBorderSource::Gradient(gradient) => {
                        if let Some(prim) = linear_gradient(
                            info,
                            gradient.start_point,
                            gradient.end_point,
                            &stops,
                            gradient.extend_mode,
                            nine_patch_stretch_size(patch),
                            LayoutSize::Zero,
                            Some(nine_patch),
                            draws,
                        ) {
                            lemma_add_flat_item_wf(state, cs, info, prim, offset);
                        }
                    },
                    NinePatchBorderSource::RadialGradient(gradient) => {
                        lemma_add_flat_item_wf(
                            state,
                            cs,
                            info,
                            radial_gradient(
                                info,
                                gradient,
                                &stops,
                                nine_patch_stretch_size(patch),
                                LayoutSize::Zero,
                                Some(nine_patch),
                                draws,
                            ),
                            offset,
                        );
                    },
                }
            }
        },
        _ => {},
    }
}

/// An item that is placed keeps the invariant.
proof fn lemma_flatten_placed_item_wf<'a>(
    flattening: Flattening<'a>,
    item: &'a DisplayItem,
    cs: ScrollNodeAndClipChain,
)
    requires
        flattening.wf(),
        flattening.state.fits(),
        flattening.frames.len() > 0,
        !(flattening.top().kind is ClosingStackingContext),
        cs.spatial_node_index.index < flattening.state.tree.len(),
        clip_id_within(cs.clip_chain_id, flattening.state.clip_nodes.len()),
    ensures
        keeps(flattening.flatten_placed_item(item, cs)),
{
    reveal(Flattening::flatten_placed_item);
    let state = flattening.state;
    let offset = flattening.top().offset;
    match item.item {
        SpecificDisplayItem::Image { .. } => lemma_flatten_drawn_item_wf(flattening, item, cs),
        SpecificDisplayItem::YuvImage { .. } => lemma_flatten_drawn_item_wf(flattening, item, cs),
        SpecificDisplayItem::Text { .. } => lemma_flatten_drawn_item_wf(flattening, item, cs),
        SpecificDisplayItem::Rectangle { .. } => lemma_flatten_drawn_item_wf(flattening, item, cs),
        SpecificDisplayItem::ClearRectangle { .. } => lemma_flatten_drawn_item_wf(
            flattening,
            item,
            cs,
        ),
        SpecificDisplayItem::Line { .. } => lemma_flatten_drawn_item_wf(flattening, item, cs),
        SpecificDisplayItem::Gradient { .. } => lemma_flatten_gradient_wf(flattening, item, cs),
        SpecificDisplayItem::RadialGradient { .. } => lemma_flatten_gradient_wf(
            flattening,
            item,
            cs,
        ),
        SpecificDisplayItem::Border { .. } => lemma_flatten_gradient_wf(flattening, item, cs),
        SpecificDisplayItem::PushStackingContext { stacking_context, filters } => {
            lemma_flatten_stacking_context_wf(
                flattening,
                *item,
                stacking_context,
                filters@,
                cs.spatial_node_index,
            );
        },
        SpecificDisplayItem::PushReferenceFrame(reference_frame) => {
            lemma_flatten_reference_frame_wf(
                flattening,
                *item,
                reference_frame,
                cs.spatial_node_index,
            );
        },
        SpecificDisplayItem::Iframe { pipeline_id } => {
            lemma_flatten_iframe_wf(flattening, *item, pipeline_id, cs.spatial_node_index);
        },
        SpecificDisplayItem::Clip { id, image_mask, complex_clips } => {
            lemma_flatten_clip_wf(
                flattening,
                *item,
                id,
                ClipRegion::create_for_clip_node(
                    item.clip_rect,
                    &complex_clips,
                    image_mask,
                    offset,
                ),
            );
        },
        SpecificDisplayItem::ClipChain { id, parent, clip_ids } => {
            lemma_flatten_clip_chain_wf(flattening, id, parent, clip_ids@);
        },
        SpecificDisplayItem::ScrollFrame {
            clip_id,
            scroll_frame_id,
            external_id,
            scroll_sensitivity,
            image_mask,
            complex_clips,
        } => {
            lemma_flatten_scroll_frame_wf(
                flattening,
                *item,
                clip_id,
                ClipRegion::create_for_clip_node(
                    item.clip_rect,
                    &complex_clips,
                    image_mask,
                    offset,
                ),
                scroll_frame_id,
                external_id,
                scroll_sensitivity,
                cs.spatial_node_index,
            );
        },
        SpecificDisplayItem::StickyFrame { id, .. } => {
            lemma_add_spatial_node_wf(
                state,
                id,
                flattening.flatten_placed_item(item, cs).flattening.state.tree.last(),
            );
            lemma_more_stored(state, flattening.flatten_placed_item(item, cs).flattening.state);
        },
        SpecificDisplayItem::PushShadow(shadow) => {
            lemma_add_pending_wf(
                state,
                ShadowItem::Shadow(PendingShadow { shadow, clip_and_scroll: cs }),
            );
            lemma_more_stored(state, state.push_shadow(shadow, cs));
        },
        SpecificDisplayItem::PopAllShadows => {
            lemma_contexts_open(flattening.frames);
            law_pop_all_shadows_wf(state, offset);
            if state.pop_all_shadows(offset).fits() {
                law_pop_all_shadows_refers(state, offset);
            }
        },
        _ => {},
    }
}

/// Every step keeps the invariant.
pub proof fn law_step_wf(flattening: Flattening)
    requires
        flattening.wf(),
        flattening.state.fits(),
        flattening.step().flattening.state.fits(),
    ensures
        flattening.step().flattening.wf(),
{
    if flattening.frames.len() > 0 {
        let top = flattening.top();
        let last = flattening.frames.len() - 1;
        assert(frame_ok_at(flattening.frames, last));
        if !(top.kind is ClosingStackingContext) {
            let next = flattening.with_cursor(past(top.list@, top.cursor));
            lemma_with_cursor_wf(flattening, past(top.list@, top.cursor));
            assert(next.top() == (Frame { cursor: past(top.list@, top.cursor), ..top }));
            if at_end_of_frame(top.list@, top.cursor as int) {
                lemma_leave_frame_wf(next);
            } else {
                let item = &top.list@[top.cursor as int];
                lemma_item_placed(next.state, *item, top.apply_pipeline_clip);
                if let Ok(cs) = item_clip_and_scroll(
                    next.state,
                    *item,
                    top.apply_pipeline_clip,
                ) {
                    lemma_flatten_placed_item_wf(next, item, cs);
                }
            }
        }
    }
}

/// Leaving a frame keeps the invariant.
proof fn lemma_leave_frame_wf(flattening: Flattening)
    requires
        flattening.wf(),
        flattening.frames.len() > 0,
        flattening.leave_frame().flattening.state.fits(),
    ensures
        flattening.leave_frame().flattening.wf(),
{
    let top = flattening.top();
    let last = flattening.frames.len() - 1;
    assert(frame_ok_at(flattening.frames, last));
    lemma_contexts_open(flattening.frames);
    lemma_close_frame_ok(flattening);
    match top.kind {
        FrameKind::Root => {
            law_pop_stacking_context_wf(flattening.state, false);
            lemma_close_frame_ok(
                flattening.with_state(flattening.state.pop_stacking_context(false)),
            );
            if flattening.state.pending_shadow_items.len() == 0 {
                law_pop_stacking_context_refers(flattening.state, false);
            }
        },
        FrameKind::StackingContext => {
            lemma_replace_top_ok(
                flattening.frames,
                Frame { kind: FrameKind::ClosingStackingContext, ..top },
            );
        },
        FrameKind::Iframe => {
            let left = FlattenerState {
                pipeline_clip_chain_stack: flattening.state.pipeline_clip_chain_stack.drop_last(),
                ..flattening.state
            };
            lemma_more_stored(flattening.state, left);
            lemma_close_frame_ok(flattening.with_state(left));
        },
        _ => {},
    }
}

/// Ending a stacking context keeps the invariant.
pub proof fn law_end_stacking_context_wf(flattening: Flattening, node_is_identity: bool)
    requires
        flattening.wf(),
        flattening.frames.len() > 0,
        flattening.top().kind is ClosingStackingContext,
        flattening.end_stacking_context(node_is_identity).flattening.state.fits(),
    ensures
        flattening.end_stacking_context(node_is_identity).flattening.wf(),
{
    lemma_contexts_open(flattening.frames);
    law_pop_stacking_context_wf(flattening.state, node_is_identity);
    if flattening.end_stacking_context(node_is_identity).result is Ok {
        law_pop_stacking_context_refers(flattening.state, node_is_identity);
    }
    lemma_close_frame_ok(
        flattening.with_state(flattening.state.pop_stacking_context(node_is_identity)),
    );
}

/// When there is no next item, no frame and no stacking context is left open,
/// and only the root clip chain of the scene is left.
pub proof fn law_finished_all_closed(flattening: Flattening)
    requires
        flattening.wf(),
        flattening.step().result matches Ok(step) && step is Finished,
    ensures
        flattening.step().flattening.frames.len() == 0,
        flattening.step().flattening.state.sc_stack.len() == 0,
        flattening.step().flattening.state.pipeline_clip_chain_stack.len() == 1,
        flattening.frames.len() > 0 ==> flattening.state.pending_shadow_items.len() == 0,
{
    reveal(Flattening::flatten_placed_item);
    if flattening.frames.len() > 0 {
        let top = flattening.top();
        let last = flattening.frames.len() - 1;
        assert(frame_ok_at(flattening.frames, last));
        let next = flattening.with_cursor(past(top.list@, top.cursor));
        lemma_with_cursor_wf(flattening, past(top.list@, top.cursor));
        lemma_contexts_open(next.frames);
        law_pop_stacking_context_wf(next.state, false);
    }
}

/// When all items of the root pipeline are done, and no shadow is active, the
/// scene is finished. Its root picture is the one that was made last, and draws
/// exactly what was added to the root stacking context.
pub proof fn law_root_picture(flattening: Flattening)
    requires
        flattening.wf(),
        flattening.frames.len() == 1,
        at_end_of_frame(flattening.top().list@, flattening.top().cursor as int),
        flattening.state.pending_shadow_items.len() == 0,
        flattening.state.prim_store.pictures.len() < usize::MAX,
    ensures
        ({
            let after = flattening.step().flattening.state;
            let pictures = after.prim_store.pictures;
            &&& flattening.step().result == Ok::<FlattenStep, FlattenError>(FlattenStep::Finished)
            &&& pictures.len() == flattening.state.prim_store.pictures.len() + 1
            &&& after.root_pic_index.index == pictures.len() - 1
            &&& pictures.last().prim_list == flattening.state.sc_stack.last().primitives
        }),
{
    assert(frame_ok_at(flattening.frames, 0));
    lemma_contexts_open(flattening.frames);
    let state = flattening.state;
    let sc = state.sc_stack.last();
    assert(sc == state.sc_stack[0]);
    let below = FlattenerState { sc_stack: state.sc_stack.drop_last(), ..state };
    assert(sc.composite_ops.filters.len() == 0);
    let leaf = below.add_context_picture(
        sc,
        leaf_picture(sc),
        PictureCompositeKey::Of(leaf_composite_mode(sc)),
    );
    assert(leaf.with_filters(sc, sc.composite_ops.filters) == leaf);
    assert(below.context_pictures(sc, true) == leaf);
}

/// How much is left to do in the display list of the topmost frame: items, then
/// frames, then the end of a stacking context.
pub open spec fn left_in_list(flattening: Flattening) -> (int, nat, nat) {
    let top = flattening.top();
    (
        top.list@.len() - top.cursor,
        flattening.frames.len(),
        if top.kind is ClosingStackingContext {
            0
        } else {
            1
        },
    )
}

/// Whether less is left to do, compared item by item.
pub open spec fn less_left(a: (int, nat, nat), b: (int, nat, nat)) -> bool {
    ||| a.0 < b.0
    ||| a.0 == b.0 && a.1 < b.1
    ||| a.0 == b.0 && a.1 == b.1 && a.2 < b.2
}

/// Every step leaves less to do in the display list that it is in, unless it
/// asks for a stacking context to be ended again, or goes to another display
/// list: into an iframe, or out of one.
pub proof fn law_step_progress(flattening: Flattening)
    requires
        flattening.wf(),
        flattening.frames.len() > 0,
        !(flattening.top().kind is ClosingStackingContext),
        !(flattening.top().kind is Iframe),
        flattening.step().result is Ok,
        flattening.step().flattening.frames.len() > 0,
        !(flattening.step().flattening.top().kind is Iframe
            && flattening.step().flattening.frames.len() > flattening.frames.len()),
    ensures
        less_left(left_in_list(flattening.step().flattening), left_in_list(flattening)),
        flattening.step().flattening.top().list == flattening.top().list,
{
    reveal(Flattening::flatten_placed_item);
    let top = flattening.top();
    let last = flattening.frames.len() - 1;
    assert(frame_ok_at(flattening.frames, last));
    if last > 0 {
        assert(frame_ok_at(flattening.frames, last - 1));
    }
    let next = flattening.with_cursor(past(top.list@, top.cursor));
    assert(next.frames.drop_last() =~= flattening.frames.drop_last());
    assert(top.list.len() == top.list@.len());
    if at_end_of_frame(top.list@, top.cursor as int) {
        assert(less_left(left_in_list(flattening.step().flattening), left_in_list(flattening)));
    } else {
        assert(next.top().cursor == top.cursor + 1);
        assert(flattening.step().flattening.top().cursor >= next.top().cursor);
    }
}

/// Ending a stacking context leaves less to do in the display list.
pub proof fn law_end_stacking_context_progress(flattening: Flattening, node_is_identity: bool)
    requires
        flattening.wf(),
        flattening.frames.len() > 0,
        flattening.top().kind is ClosingStackingContext,
        flattening.end_stacking_context(node_is_identity).result is Ok,
    ensures
        ({
            let after = flattening.end_stacking_context(node_is_identity).flattening;
            &&& after.frames.len() == flattening.frames.len() - 1
            &&& after.frames.len() > 0
            &&& after.top().list == flattening.top().list
            &&& less_left(left_in_list(after), left_in_list(flattening))
        }),
{
    let last = flattening.frames.len() - 1;
    assert(frame_ok_at(flattening.frames, last));
    assert(frame_ok_at(flattening.frames, 0));
    assert(frame_ok_at(flattening.frames, last - 1));
}

/// A step asks for a stacking context to be ended only when that is closing; and
/// an item is left to the embedder only when it is placed and clipped by what is
/// there.
pub proof fn law_requests_are_sound(flattening: Flattening)
    requires
        flattening.wf(),
    ensures
        ({
            let after = flattening.step().flattening;
            match flattening.step().result {
                Ok(FlattenStep::CloseStackingContext { spatial_node_index }) => {
                    &&& after.frames.len() > 0
                    &&& after.top().kind is ClosingStackingContext
                    &&& after.state.sc_stack.len() > 0
                    &&& spatial_node_index == after.state.sc_stack.last().spatial_node_index
                    &&& spatial_node_index.index < after.state.tree.len()
                },
                Ok(FlattenStep::BoxShadow(request)) => request_placed(
                    after,
                    request.clip_and_scroll,
                ),
                Ok(FlattenStep::NormalBorder(request)) => request_placed(
                    after,
                    request.clip_and_scroll,
                ),
                _ => true,
            }
        }),
{
    reveal(Flattening::flatten_placed_item);
    if flattening.frames.len() > 0 {
        let top = flattening.top();
        let state = flattening.state;
        let last = flattening.frames.len() - 1;
        assert(frame_ok_at(flattening.frames, last));
        lemma_contexts_open(flattening.frames);
        assert(context_placed(state.sc_stack[state.sc_stack.len() - 1], state.tree.len()));
        if !(top.kind is ClosingStackingContext) && !at_end_of_frame(
            top.list@,
            top.cursor as int,
        ) {
            lemma_item_placed(
                state,
                top.list@[top.cursor as int],
                top.apply_pipeline_clip,
            );
        }
    }
}

/// Whether there are a stacking context, a positioning node and a clip chain for
/// what the embedder is to add.
pub open spec fn request_placed(flattening: Flattening, place: ScrollNodeAndClipChain) -> bool {
    &&& flattening.state.sc_stack.len() > 0
    &&& place.spatial_node_index.index < flattening.state.tree.len()
    &&& clip_id_within(place.clip_chain_id, flattening.state.clip_nodes.len())
}

/// A primitive that the embedder adds between two steps, placed and clipped by
/// what is there, keeps the invariant.
pub proof fn law_embedder_adds_primitive<'a>(
    flattening: Flattening<'a>,
    clip_and_scroll: ScrollNodeAndClipChain,
    info: LayoutPrimitiveInfo,
    clip_items: Seq<(LayoutPoint, ClipItemKey)>,
    prim: Primitive<'a>,
    visible: bool,
    pending: ShadowItem<'a>,
    offset: LayoutVector2D,
)
    requires
        flattening.wf(),
        request_placed(flattening, clip_and_scroll),
        pending_place(pending) == clip_and_scroll.spatial_node_index,
        flattening.state.add_primitive(
            clip_and_scroll,
            info,
            clip_items,
            prim,
            visible,
            pending,
            offset,
        ).fits(),
    ensures
        flattening.with_state(
            flattening.state.add_primitive(
                clip_and_scroll,
                info,
                clip_items,
                prim,
                visible,
                pending,
                offset,
            ),
        ).wf(),
        flattening.state.grows_to(
            flattening.state.add_primitive(
                clip_and_scroll,
                info,
                clip_items,
                prim,
                visible,
                pending,
                offset,
            ),
        ),
{
    let state = flattening.state;
    if state.pending_shadow_items.len() == 0 {
        law_embedder_adds_nonshadowable_primitive(
            flattening,
            clip_and_scroll,
            info,
            clip_items,
            prim,
            visible,
            offset,
        );
    } else {
        lemma_add_pending_wf(state, pending);
        lemma_more_stored(
            state,
            FlattenerState {
                pending_shadow_items: state.pending_shadow_items.push(pending),
                ..state
            },
        );
    }
}

/// A primitive without shadow that the embedder adds between two steps, placed
/// and clipped by what is there, keeps the invariant.
pub proof fn law_embedder_adds_nonshadowable_primitive<'a>(
    flattening: Flattening<'a>,
    clip_and_scroll: ScrollNodeAndClipChain,
    info: LayoutPrimitiveInfo,
    clip_items: Seq<(LayoutPoint, ClipItemKey)>,
    prim: Primitive<'a>,
    visible: bool,
    offset: LayoutVector2D,
)
    requires
        flattening.wf(),
        request_placed(flattening, clip_and_scroll),
        flattening.state.add_nonshadowable_primitive(
            clip_and_scroll,
            info,
            clip_items,
            prim,
            visible,
            offset,
        ).fits(),
    ensures
        flattening.with_state(
            flattening.state.add_nonshadowable_primitive(
                clip_and_scroll,
                info,
                clip_items,
                prim,
                visible,
                offset,
            ),
        ).wf(),
        flattening.state.grows_to(
            flattening.state.add_nonshadowable_primitive(
                clip_and_scroll,
                info,
                clip_items,
                prim,
                visible,
                offset,
            ),
        ),
{
    let state = flattening.state;
    let after = state.add_nonshadowable_primitive(
        clip_and_scroll,
        info,
        clip_items,
        prim,
        visible,
        offset,
    );
    let spatial = clip_and_scroll.spatial_node_index;
    let parent = clip_and_scroll.clip_chain_id;
    let built = state.build_clip_chain(clip_items, spatial, parent);
    lemma_build_clip_chain_keeps(state, clip_items, spatial, parent);
    lemma_build_clip_chain_grows(state, clip_items, spatial, parent);
    if visible {
        lemma_grows_trans(state, built, after);
    }
    law_add_nonshadowable_primitive_wf(
        state,
        clip_and_scroll,
        info,
        clip_items,
        prim,
        visible,
        offset,
    );
    law_add_nonshadowable_primitive_refers(
        state,
        clip_and_scroll,
        info,
        clip_items,
        prim,
        visible,
        offset,
    );
}

/// When the embedder tells how a picture is drawn after it was tried to collapse
/// it, the invariant is kept.
pub proof fn law_picture_optimized_wf(
    flattening: Flattening,
    pic_index: PictureIndex,
    composite_mode: Option<PictureCompositeMode>,
)
    requires
        flattening.wf(),
        pic_index.index < flattening.state.prim_store.pictures.len(),
    ensures
        flattening.with_state(
            flattening.state.picture_optimized(pic_index, composite_mode),
        ).wf(),
{
    let state = flattening.state;
    let after = state.picture_optimized(pic_index, composite_mode);
    assert forall|i: int| 0 <= i < after.sc_stack.len() implies context_refers(
        #[trigger] after.sc_stack[i],
        after.stored(),
    ) by {
        assert(context_refers(state.sc_stack[i], state.stored()));
    }
    assert forall|i: int| 0 <= i < after.prim_store.pictures.len() implies picture_refers_back(
        #[trigger] after.prim_store.pictures[i],
        i,
        after.stored(),
    ) by {
        assert(picture_refers_back(state.prim_store.pictures[i], i, state.stored()));
    }
}

} // verus!
