//! What steps come to: when they fail, how frames end, and where flattening
//! begins.
use std::collections::{HashMap, HashSet};

use vstd::prelude::*;

use crate::clip_store::{ClipChainNode, ClipItemKey};
use crate::composed::{begins, lemma_does_nothing, top_does_nothing};
use crate::display_list::{DisplayItem, Scene, SpecificDisplayItem};
use crate::drawn::{is_positive, law_float_comparison};
use crate::effects::{
    can_be_hit_last, comes_next, draws_last, instance_of_primitive, interns_primitive, same_given,
    waits_last,
};
use crate::frame_builder::{drawn_background, empty_state, has_root_pipeline, root_pipeline};
use crate::hit_test::{law_hit_order_append, HitTestingItem};
use crate::ids::{
    ClipChainId, ClipId, ImageKey, PictureIndex, PipelineId, RequestIndex, ScrollNodeAndClipChain,
    SpatialId, SpatialNodeIndex,
};
use crate::items::texel_sub_rect;
use crate::layout::{ColorF, F32, LayoutPoint, LayoutVector2D, Scalar};
use crate::mapper::ClipNode;
use crate::picture::{PictureCompositeMode, PicturePrimitive, PrimitiveRecord, RasterSpace};
use crate::placed::{pipeline_number, pipeline_root_nodes};
use crate::primitives::{
    BaseFontInstance, GlyphInstance, InternRequest, LayoutPrimitiveInfo, Primitive, TexelRect,
    TextRun,
};
use crate::shadows::ShadowItem;
use crate::spatial_tree::{is_explicit_scroll_frame, ScrollFrameKind, SpatialNode, SpatialNodeType};
use crate::state::{lemma_build_clip_chain_keeps, FlattenerState, FrameBuilderConfig};
use crate::traversal::{FlattenError, FlattenStep, Flattening, Frame, FrameKind};

verus! {

/// Whether an item ends what another began.
pub open spec fn ends_something(item: DisplayItem) -> bool {
    item.item is PopStackingContext || item.item is PopReferenceFrame
}

/// Whether the clip id of an item can be used where the item is: it is mapped, or
/// is the root clip where that does not apply, or the one that stands for an
/// invalid clip.
pub open spec fn clip_usable(before: Flattening, item: DisplayItem) -> bool {
    let id = item.space_and_clip.clip_id;
    ||| before.state.mapping.clips.contains_key(id)
    ||| id matches ClipId::Clip(number, _) && (number == u64::MAX || number == 0
        && !before.frames.last().apply_pipeline_clip)
}

/// Whether an item refers to a clip that is not there: a clip, a scroll frame or an
/// iframe to the one that it is on top of, a clip chain to its parent or to one of
/// its clips, a stacking context that is not empty to its own.
pub open spec fn refers_to_missing_clip(before: Flattening, item: DisplayItem) -> bool {
    let clips = before.state.mapping.clips;
    let top = before.frames.last();
    match item.item {
        SpecificDisplayItem::Clip { .. } => !clips.contains_key(item.space_and_clip.clip_id),
        SpecificDisplayItem::ScrollFrame { .. } => !clips.contains_key(
            item.space_and_clip.clip_id,
        ),
        SpecificDisplayItem::Iframe { pipeline_id } => {
            &&& before.state.scene.pipelines@.contains_key(pipeline_number(pipeline_id))
            &&& !clips.contains_key(item.space_and_clip.clip_id)
        },
        SpecificDisplayItem::ClipChain { parent, clip_ids, .. } => {
            ||| parent matches Some(id) && !clips.contains_key(ClipId::ClipChain(id))
            ||| exists|i: int|
                0 <= i < clip_ids@.len() && !clips.contains_key(#[trigger] clip_ids@[i])
        },
        SpecificDisplayItem::PushStackingContext { stacking_context, .. } => {
            &&& stacking_context.clip_id matches Some(id)
            &&& !clips.contains_key(id)
            &&& top.cursor + 1 < top.list@.len()
            &&& !(top.list@[top.cursor + 1].item is PopStackingContext)
        },
        _ => false,
    }
}

/// A step over an item that ends nothing fails if the item is at a node that is
/// not there, or if it refers to a clip that is not there, or if it ends shadows
/// where there are none; and in no other case. A step that fails changes nothing.
pub proof fn law_item_fails<'a>(before: Flattening<'a>, item: DisplayItem)
    requires
        comes_next(before, item),
        !ends_something(item),
    ensures
        ({
            let known = before.state.mapping.spatial.contains_key(item.space_and_clip.spatial_id);
            let clipped = clip_usable(before, item) && !refers_to_missing_clip(before, item);
            let result = before.step().result;
            &&& result == Err::<FlattenStep, FlattenError>(FlattenError::UnknownSpatialNode)
                <==> !known
            &&& result == Err::<FlattenStep, FlattenError>(FlattenError::UnknownClip) <==> known
                && !clipped
            &&& result == Err::<FlattenStep, FlattenError>(FlattenError::NoPendingShadows) <==> {
                &&& known && clipped
                &&& item.item is PopAllShadows
                &&& before.state.pending_shadow_items.len() == 0
            }
            &&& result matches Err(error) ==> {
                ||| error == FlattenError::UnknownSpatialNode
                ||| error == FlattenError::UnknownClip
                ||| error == FlattenError::NoPendingShadows
            }
            &&& result is Err ==> before.step().flattening == before
        }),
{
    reveal(Flattening::flatten_placed_item);
    let top = before.frames.last();
    assert(top.list.len() == top.list@.len());
    if let SpecificDisplayItem::ClipChain { parent, clip_ids, .. } = item.item {
        if exists|i: int|
            0 <= i < clip_ids@.len() && !before.state.mapping.clips.contains_key(
                #[trigger] clip_ids@[i],
            ) {
            let i = choose|i: int|
                0 <= i < clip_ids@.len() && !before.state.mapping.clips.contains_key(
                    #[trigger] clip_ids@[i],
                );
            assert(!before.state.mapping.clips.contains_key(clip_ids@[i]));
        }
    }
}

/// Whether all items of the topmost frame are done: the list has ended, or an item
/// comes that ends something.
pub open spec fn items_done(before: Flattening) -> bool {
    let top = before.frames.last();
    &&& before.frames.len() > 0
    &&& top.cursor >= top.list@.len() || ends_something(top.list@[top.cursor as int])
}

/// The place after the item that ends a frame; the end of the list where none does.
pub open spec fn after_end(frame: Frame) -> usize {
    if frame.cursor < frame.list@.len() {
        (frame.cursor + 1) as usize
    } else {
        frame.cursor
    }
}

/// When all items of a stacking context are done, the embedder is asked about the
/// positioning node of that, again and again until it is ended. Nothing else
/// changes.
pub proof fn law_context_asks_to_end<'a>(before: Flattening<'a>)
    requires
        before.frames.len() > 0,
        before.frames.last().kind is ClosingStackingContext || items_done(before)
            && before.frames.last().kind is StackingContext,
    ensures
        before.step().result == Ok::<FlattenStep, FlattenError>(
            FlattenStep::CloseStackingContext {
                spatial_node_index: before.state.sc_stack.last().spatial_node_index,
            },
        ),
        before.step().flattening.state == before.state,
        ({
            let top = before.frames.last();
            let after = before.step().flattening.frames;
            after == if top.kind is ClosingStackingContext {
                before.frames
            } else {
                before.frames.drop_last().push(
                    Frame {
                        kind: FrameKind::ClosingStackingContext,
                        cursor: after_end(top),
                        ..top
                    },
                )
            }
        }),
{
    let top = before.frames.last();
    assert(top.list.len() == top.list@.len());
    if top.kind is StackingContext {
        assert(before.step().flattening.frames.drop_last() =~= before.frames.drop_last());
        assert(before.step().flattening.frames =~= before.frames.drop_last().push(
            Frame { kind: FrameKind::ClosingStackingContext, cursor: after_end(top), ..top },
        ));
    }
}

/// When all items of a reference frame are done, the frame below goes on after the
/// item that ends it. Nothing else changes.
pub proof fn law_reference_frame_ends<'a>(before: Flattening<'a>)
    requires
        items_done(before),
        before.frames.last().kind is ReferenceFrame,
        before.frames.len() > 1,
    ensures
        before.step().result == Ok::<FlattenStep, FlattenError>(FlattenStep::Continue),
        before.step().flattening.state == before.state,
        ({
            let count = before.frames.len() as int;
            before.step().flattening.frames == before.frames.take(count - 2).push(
                Frame { cursor: after_end(before.frames.last()), ..before.frames[count - 2] },
            )
        }),
{
    let count = before.frames.len() as int;
    let top = before.frames.last();
    assert(top.list.len() == top.list@.len());
    let after = before.step().flattening.frames;
    assert(after =~= before.frames.take(count - 2).push(
        Frame { cursor: after_end(top), ..before.frames[count - 2] },
    ));
}

/// When all items of an iframe are done, the frame below goes on where it was, and
/// the root clip of its pipeline applies again. Nothing else changes.
pub proof fn law_iframe_ends<'a>(before: Flattening<'a>)
    requires
        items_done(before),
        before.frames.last().kind is Iframe,
    ensures
        before.step().result == Ok::<FlattenStep, FlattenError>(FlattenStep::Continue),
        before.step().flattening.frames == before.frames.drop_last(),
        before.step().flattening.state == (FlattenerState {
            pipeline_clip_chain_stack: before.state.pipeline_clip_chain_stack.drop_last(),
            ..before.state
        }),
{
    let top = before.frames.last();
    assert(top.list.len() == top.list@.len());
    assert(before.step().flattening.frames =~= before.frames.drop_last());
}

/// When all items of the root pipeline are done, its stacking context ends, and
/// flattening is finished; but it fails where a shadow is active.
pub proof fn law_root_ends<'a>(before: Flattening<'a>)
    requires
        items_done(before),
        before.frames.last().kind is Root,
        before.frames.len() == 1,
    ensures
        before.state.pending_shadow_items.len() > 0 ==> {
            &&& before.step().result == Err::<FlattenStep, FlattenError>(
                FlattenError::UnpoppedShadows,
            )
            &&& before.step().flattening == before
        },
        before.state.pending_shadow_items.len() == 0 ==> {
            &&& before.step().result == Ok::<FlattenStep, FlattenError>(FlattenStep::Finished)
            &&& before.step().flattening.frames.len() == 0
            &&& before.step().flattening.state == before.state.pop_stacking_context(false)
        },
{
    assert(before.frames.last().list.len() == before.frames.last().list@.len());
}

/// When there is no frame, flattening is finished, and a step changes nothing.
pub proof fn law_finished_stays<'a>(before: Flattening<'a>)
    requires
        before.frames.len() == 0,
    ensures
        before.step().result == Ok::<FlattenStep, FlattenError>(FlattenStep::Finished),
        before.step().flattening == before,
{
}

/// Ending a stacking context fails where a shadow is active, unless the context does
/// nothing. Else its frame is closed, and the one below goes on after it; the
/// embedder is asked to optimize the new pictures, if there are any for filters.
pub proof fn law_end_of_context<'a>(before: Flattening<'a>, node_is_identity: bool)
    requires
        before.frames.len() > 1,
        before.frames.last().kind is ClosingStackingContext,
        before.state.sc_stack.len() > 0,
    ensures
        ({
            let outcome = before.end_stacking_context(node_is_identity);
            let count = before.frames.len() as int;
            let idle = top_does_nothing(before.state, node_is_identity);
            if before.state.pending_shadow_items.len() > 0 && !idle {
                &&& outcome.result == Err::<FlattenStep, FlattenError>(
                    FlattenError::UnpoppedShadows,
                )
                &&& outcome.flattening == before
            } else {
                &&& outcome.flattening.state == before.state.pop_stacking_context(node_is_identity)
                &&& outcome.flattening.frames == before.frames.take(count - 2).push(
                    Frame { cursor: before.frames.last().cursor, ..before.frames[count - 2] },
                )
                &&& outcome.result == Ok::<FlattenStep, FlattenError>(
                    if !idle && before.state.sc_stack.last().composite_ops.filters.len() > 0 {
                        FlattenStep::OptimizePictures {
                            from: PictureIndex {
                                index: before.state.prim_store.pictures.len() as usize,
                            },
                        }
                    } else {
                        FlattenStep::Continue
                    },
                )
            }
        }),
{
    lemma_does_nothing(before.state, node_is_identity);
    let count = before.frames.len() as int;
    let outcome = before.end_stacking_context(node_is_identity);
    if outcome.result is Ok {
        assert(outcome.flattening.frames =~= before.frames.take(count - 2).push(
            Frame { cursor: before.frames.last().cursor, ..before.frames[count - 2] },
        ));
    }
}

/// A picture that the embedder tells of is drawn as it says, and is marked no more.
/// No other picture changes, and nothing else does.
pub proof fn law_told_picture(
    state: FlattenerState,
    pic_index: PictureIndex,
    composite_mode: Option<PictureCompositeMode>,
    other: int,
)
    requires
        pic_index.index < state.prim_store.pictures.len(),
        0 <= other < state.prim_store.pictures.len(),
    ensures
        ({
            let after = state.picture_optimized(pic_index, composite_mode);
            let pictures = after.prim_store.pictures;
            let place = pic_index.index as int;
            &&& after == (FlattenerState { prim_store: after.prim_store, ..state })
            &&& after.prim_store.records == state.prim_store.records
            &&& pictures.len() == state.prim_store.pictures.len()
            &&& pictures[place].requested_composite_mode == composite_mode
            &&& !pictures[place].optimize
            &&& pictures[place] == (PicturePrimitive {
                requested_composite_mode: pictures[place].requested_composite_mode,
                optimize: pictures[place].optimize,
                ..state.prim_store.pictures[place]
            })
            &&& other != place ==> pictures[other] == state.prim_store.pictures[other]
        }),
{
}

/// Flattening begins with the root pipeline of the scene: its root nodes, with its
/// viewport and the size of its content, and a root clip that clips nothing; one
/// stacking context, in which nothing is drawn yet; and its first item. A scene
/// without such a pipeline cannot be flattened.
pub proof fn law_begins_with_root<'a>(
    scene: &'a Scene,
    font_instances: &'a HashMap<u64, BaseFontInstance>,
    output_pipelines: &'a HashSet<u64>,
    config: FrameBuilderConfig,
    requests: Seq<InternRequest<'a>>,
)
    ensures
        has_root_pipeline(scene) <==> match scene.root_pipeline_id {
            Some(id) => scene.pipelines@.contains_key(pipeline_number(id)),
            None => false,
        },
        has_root_pipeline(scene) ==> {
            let begun = empty_state(
                scene,
                font_instances,
                output_pipelines,
                config,
                requests,
            ).begin();
            let state = begun.state;
            let id = scene.root_pipeline_id->0;
            let pipeline = &scene.pipelines@[pipeline_number(id)];
            &&& state.scene == scene
            &&& state.font_instances == font_instances
            &&& state.output_pipelines == output_pipelines
            &&& state.config == config
            &&& state.requests == requests
            &&& state.tree == pipeline_root_nodes(
                id,
                None,
                LayoutVector2D::Zero,
                pipeline.viewport_size,
                pipeline.content_size,
                0,
            )
            &&& state.mapping.spatial == map![
                SpatialId { id: 0, pipeline_id: id } => SpatialNodeIndex { index: 0 },
                SpatialId { id: 1, pipeline_id: id } => SpatialNodeIndex { index: 1 },
            ]
            &&& state.mapping.clips == map![
                ClipId::Clip(0, id) => ClipNode { id: ClipChainId::Unclipped, count: 0 },
            ]
            &&& state.pipeline_clip_chain_stack == seq![ClipChainId::Unclipped]
            &&& state.clip_nodes.len() == 0
            &&& state.pending_shadow_items.len() == 0
            &&& state.prim_store.pictures.len() == 0
            &&& state.prim_store.records.len() == 0
            &&& state.hit_testing_runs.len() == 0
            &&& state.sc_stack.len() == 1
            &&& begins(
                FlattenerState { sc_stack: Seq::empty(), ..state },
                state.sc_stack[0],
                pipeline.pipeline_id,
                Seq::empty(),
                None,
                crate::spatial_tree::TransformStyle::Flat,
                true,
                false,
                SpatialNodeIndex { index: 0 },
                ClipChainId::Unclipped,
                RasterSpace::Screen,
            )
            &&& begun.frames == seq![
                Frame {
                    kind: FrameKind::Root,
                    list: &pipeline.display_list,
                    cursor: 0,
                    pipeline_id: pipeline.pipeline_id,
                    offset: LayoutVector2D::Zero,
                    apply_pipeline_clip: true,
                },
            ]
        },
{
    if has_root_pipeline(scene) {
        let begun = empty_state(
            scene,
            font_instances,
            output_pipelines,
            config,
            requests,
        ).begin();
        let id = scene.root_pipeline_id->0;
        let pipeline = &scene.pipelines@[pipeline_number(id)];
        assert(begun.state.tree =~= pipeline_root_nodes(
            id,
            None,
            LayoutVector2D::Zero,
            pipeline.viewport_size,
            pipeline.content_size,
            0,
        ));
        assert(begun.state.mapping.spatial =~= map![
            SpatialId { id: 0, pipeline_id: id } => SpatialNodeIndex { index: 0 },
            SpatialId { id: 1, pipeline_id: id } => SpatialNodeIndex { index: 1 },
        ]);
        assert(begun.state.mapping.clips =~= map![
            ClipId::Clip(0, id) => ClipNode { id: ClipChainId::Unclipped, count: 0 },
        ]);
    }
}

/// The background that a frame builder gets is the background colour of the root
/// pipeline, unless that is transparent.
pub proof fn law_background(scene: &Scene, color: ColorF)
    requires
        has_root_pipeline(scene),
    ensures
        drawn_background(root_pipeline(scene).background_color) == Some(color) <==> {
            &&& scene.pipelines@[pipeline_number(scene.root_pipeline_id->0)].background_color
                == Some(color)
            &&& is_positive(color.a)
        },
{
    law_float_comparison(color.a, F32 { bits: 0 });
}

/// A primitive that is added with clips of its own is clipped by these, each on top
/// of the one before, and the first on top of the clip that it is given; but the
/// area in which it can be hit is clipped by that alone. The clips are interned
/// before the primitive.
pub proof fn law_own_clips<'a>(
    state: FlattenerState<'a>,
    place: ScrollNodeAndClipChain,
    info: LayoutPrimitiveInfo,
    clip_items: Seq<(LayoutPoint, ClipItemKey)>,
    prim: Primitive<'a>,
    offset: LayoutVector2D,
    k: int,
)
    requires
        state.sc_stack.len() > 0,
    ensures
        ({
            let after = state.add_nonshadowable_primitive(
                place,
                info,
                clip_items,
                prim,
                true,
                offset,
            );
            let nodes = state.clip_nodes.len();
            let requests = state.requests.len();
            let count = clip_items.len();
            &&& same_given(state, after)
            &&& after.tree == state.tree
            &&& after.mapping == state.mapping
            &&& after.pipeline_clip_chain_stack == state.pipeline_clip_chain_stack
            &&& after.pending_shadow_items == state.pending_shadow_items
            &&& after.prim_store.pictures == state.prim_store.pictures
            &&& after.root_pic_index == state.root_pic_index
            &&& after.clip_nodes.len() == nodes + count
            &&& after.requests.len() == requests + count + 1
            &&& 0 <= k < nodes ==> after.clip_nodes[k] == state.clip_nodes[k]
            &&& 0 <= k < requests ==> after.requests[k] == state.requests[k]
            &&& 0 <= k < count ==> {
                &&& after.requests[requests + k] == InternRequest::<'a>::Clip(clip_items[k].1)
                &&& after.clip_nodes[nodes + k] == (ClipChainNode {
                    handle: RequestIndex { index: (requests + k) as usize },
                    local_pos: clip_items[k].0,
                    spatial_node_index: place.spatial_node_index,
                    parent_clip_chain_id: if k == 0 {
                        place.clip_chain_id
                    } else {
                        ClipChainId::Node((nodes + k - 1) as usize)
                    },
                })
            }
            &&& interns_primitive(after.requests.drop_last(), after.requests, info, prim)
            &&& after.prim_store.records == state.prim_store.records.push(
                PrimitiveRecord {
                    data_handle: RequestIndex { index: (requests + count) as usize },
                    reference_frame_relative_offset: offset,
                },
            )
            &&& draws_last(
                state.sc_stack,
                after.sc_stack,
                instance_of_primitive(
                    info,
                    ScrollNodeAndClipChain {
                        spatial_node_index: place.spatial_node_index,
                        clip_chain_id: if count == 0 {
                            place.clip_chain_id
                        } else {
                            ClipChainId::Node((nodes + count - 1) as usize)
                        },
                    },
                    requests + count,
                    state.prim_store.records.len(),
                ),
            )
            &&& can_be_hit_last(state, after, place, info)
        }),
{
    let built = state.build_clip_chain(clip_items, place.spatial_node_index, place.clip_chain_id);
    let after = state.add_nonshadowable_primitive(place, info, clip_items, prim, true, offset);
    lemma_build_clip_chain_keeps(
        state,
        clip_items,
        place.spatial_node_index,
        place.clip_chain_id,
    );
    lemma_built_node(state, clip_items, place.spatial_node_index, place.clip_chain_id, k);
    if let Some(tag) = info.tag {
        law_hit_order_append(
            state.hit_testing_runs,
            HitTestingItem {
                tag,
                rect: info.rect,
                clip_rect: info.clip_rect,
                is_backface_visible: info.is_backface_visible,
            },
            place,
        );
    }
    assert(after.requests.drop_last() =~= built.requests);
    assert(after.sc_stack.drop_last() =~= state.sc_stack.drop_last());
}

proof fn lemma_built_node<'a>(
    state: FlattenerState<'a>,
    items: Seq<(LayoutPoint, ClipItemKey)>,
    spatial_node_index: SpatialNodeIndex,
    parent: ClipChainId,
    k: int,
)
    ensures
        ({
            let after = state.build_clip_chain(items, spatial_node_index, parent);
            let nodes = state.clip_nodes.len();
            let requests = state.requests.len();
            &&& 0 <= k < nodes ==> after.clip_nodes[k] == state.clip_nodes[k]
            &&& 0 <= k < requests ==> after.requests[k] == state.requests[k]
            &&& 0 <= k < items.len() ==> {
                &&& after.requests[requests + k] == InternRequest::<'a>::Clip(items[k].1)
                &&& after.clip_nodes[nodes + k] == (ClipChainNode {
                    handle: RequestIndex { index: (requests + k) as usize },
                    local_pos: items[k].0,
                    spatial_node_index,
                    parent_clip_chain_id: if k == 0 {
                        parent
                    } else {
                        ClipChainId::Node((nodes + k - 1) as usize)
                    },
                })
            }
        }),
    decreases items.len(),
{
    if items.len() > 0 {
        let next = state.add_clip_item(items[0].0, items[0].1, spatial_node_index, parent);
        let rest = items.drop_first();
        let id = state.next_clip();
        lemma_build_clip_chain_keeps(next, rest, spatial_node_index, id);
        lemma_built_node(next, rest, spatial_node_index, id, k);
        if k == 0 {
            lemma_built_node(next, rest, spatial_node_index, id, state.clip_nodes.len() as int);
            lemma_built_node(next, rest, spatial_node_index, id, state.requests.len() as int);
        } else {
            lemma_built_node(next, rest, spatial_node_index, id, k - 1);
        }
    }
}

/// A primitive that can cast a shadow waits while one is active; else it is added
/// like one that casts none. One that draws nothing is not added.
pub proof fn law_adding_primitives<'a>(
    state: FlattenerState<'a>,
    place: ScrollNodeAndClipChain,
    info: LayoutPrimitiveInfo,
    clip_items: Seq<(LayoutPoint, ClipItemKey)>,
    prim: Primitive<'a>,
    draws: bool,
    pending: ShadowItem<'a>,
    offset: LayoutVector2D,
)
    ensures
        ({
            let flat = state.add_nonshadowable_primitive(
                place,
                info,
                clip_items,
                prim,
                draws,
                offset,
            );
            let after = state.add_primitive(
                place,
                info,
                clip_items,
                prim,
                draws,
                pending,
                offset,
            );
            &&& !draws ==> flat == state
            &&& if state.pending_shadow_items.len() > 0 {
                waits_last(state, after, pending)
            } else {
                after == flat
            }
        }),
{
}

/// Every glyph of a text is placed back by the offset of the text, and stays the
/// same glyph.
pub proof fn law_glyph_placed(run: TextRun, glyph: GlyphInstance)
    ensures
        run.placed(glyph).index == glyph.index,
        run.placed(glyph).point == LayoutPoint::Minus(
            Box::new(LayoutPoint::Value(glyph.point)),
            Box::new(run.prim_offset),
        ),
{
}

/// The part of an image between two texels starts at the first, and is as large as
/// their distance.
pub proof fn law_part_of_image(part: TexelRect)
    ensures
        ({
            let cut = texel_sub_rect(part);
            &&& cut.x == Scalar::Value(part.uv0.x)
            &&& cut.y == Scalar::Value(part.uv0.y)
            &&& cut.width == Scalar::Difference(
                Box::new(Scalar::Value(part.uv1.x)),
                Box::new(Scalar::Value(part.uv0.x)),
            )
            &&& cut.height == Scalar::Difference(
                Box::new(Scalar::Value(part.uv1.y)),
                Box::new(Scalar::Value(part.uv0.y)),
            )
        }),
{
}

/// The scroll frames that count as scroll roots are those that a display list asks
/// for, not those at the roots of pipelines.
pub proof fn law_explicit_scroll_frames(node: SpatialNode)
    ensures
        is_explicit_scroll_frame(node) <==> (node.node_type matches SpatialNodeType::ScrollFrame(
            info,
        ) && info.frame_kind == ScrollFrameKind::Explicit),
{
}

/// What the reserved ids are: the first number of clips and of positioning nodes is
/// that of the root of a pipeline, the second number of nodes that of its scroll
/// frame, the last number of clips stands for an invalid one; the first node is the
/// root of the tree.
pub proof fn law_reserved_ids(pipeline_id: PipelineId, number: u64)
    ensures
        ClipId::root(pipeline_id) == ClipId::Clip(0, pipeline_id),
        ClipId::Clip(number, pipeline_id).is_root() <==> number == 0,
        ClipId::Clip(number, pipeline_id).is_valid() <==> number != u64::MAX,
        SpatialId::root_reference_frame(pipeline_id) == (SpatialId { id: 0, pipeline_id }),
        SpatialId::root_scroll_node(pipeline_id) == (SpatialId { id: 1, pipeline_id }),
        crate::ids::root_spatial_node_index() == (SpatialNodeIndex { index: 0 }),
        ImageKey::dummy() == (ImageKey { namespace: 0, index: 0 }),
        pipeline_id.key() == pipeline_number(pipeline_id),
{
}

} // verus!
