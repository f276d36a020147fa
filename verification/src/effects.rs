//! What is read off a scene before and after an operation, part by part.
//!
//! The laws about what the operations are for are stated with these predicates:
//! each of them speaks of the parts of two scenes, and of nothing that an
//! operation is made of.
use vstd::prelude::*;

use crate::display_list::DisplayItem;
use crate::hit_test::{hit_order, HitTestingItem};
use crate::ids::{ClipChainId, ClipId, RequestIndex, ScrollNodeAndClipChain};
use crate::layout::{LayoutPoint, LayoutRect, LayoutSize, LayoutVector2D, RectF};
use crate::picture::{PrimitiveInstance, PrimitiveInstanceKind, PrimitiveRecord};
use crate::primitives::{InternRequest, LayoutPrimitiveInfo, Primitive, PrimitiveSceneData};
use crate::shadows::ShadowItem;
use crate::stacking_context::{Context, FlattenedStackingContext};
use crate::state::FlattenerState;
use crate::traversal::{FlattenError, FlattenStep, Flattening, Frame, Outcome};

verus! {

/// Whether an item is the one that the next step is about.
pub open spec fn comes_next(before: Flattening, item: DisplayItem) -> bool {
    let top = before.frames.last();
    &&& before.frames.len() > 0
    &&& !(top.kind is ClosingStackingContext)
    &&& top.cursor < top.list@.len()
    &&& top.list@[top.cursor as int] == item
}

/// Whether all positions of the stores can be held by indices.
pub open spec fn indexable(state: FlattenerState) -> bool {
    &&& state.tree.len() <= usize::MAX
    &&& state.clip_nodes.len() <= usize::MAX
    &&& state.requests.len() <= usize::MAX
    &&& state.prim_store.pictures.len() <= usize::MAX
    &&& state.prim_store.records.len() <= usize::MAX
}

/// Whether two scenes have the same things given from outside.
pub open spec fn same_given(a: FlattenerState, b: FlattenerState) -> bool {
    &&& a.scene == b.scene
    &&& a.font_instances == b.font_instances
    &&& a.output_pipelines == b.output_pipelines
    &&& a.config == b.config
}

/// Whether two scenes have the same positioning nodes and clips, under the same
/// ids.
pub open spec fn same_places(a: FlattenerState, b: FlattenerState) -> bool {
    &&& same_given(a, b)
    &&& a.tree == b.tree
    &&& a.mapping == b.mapping
    &&& a.clip_nodes == b.clip_nodes
    &&& a.pipeline_clip_chain_stack == b.pipeline_clip_chain_stack
}

/// Whether two scenes draw the same, and the same can be hit.
pub open spec fn same_drawn(a: FlattenerState, b: FlattenerState) -> bool {
    &&& same_given(a, b)
    &&& a.sc_stack == b.sc_stack
    &&& a.pending_shadow_items == b.pending_shadow_items
    &&& a.prim_store == b.prim_store
    &&& a.hit_testing_runs == b.hit_testing_runs
    &&& a.root_pic_index == b.root_pic_index
}

/// Whether the topmost frame has gone one item further, and nothing else has
/// changed of the frames.
pub open spec fn passes_item<'a>(before: Seq<Frame<'a>>, after: Seq<Frame<'a>>) -> bool {
    &&& before.len() > 0
    &&& after == before.drop_last().push(
        Frame { cursor: (before.last().cursor + 1) as usize, ..before.last() },
    )
}

/// Whether the topmost frame has gone one item further, and a frame is opened on
/// it.
pub open spec fn opens_frame<'a>(
    before: Seq<Frame<'a>>,
    after: Seq<Frame<'a>>,
    opened: Frame<'a>,
) -> bool {
    &&& before.len() > 0
    &&& after == before.drop_last().push(
        Frame { cursor: (before.last().cursor + 1) as usize, ..before.last() },
    ).push(opened)
}

/// Whether `place` is where a display list says that an item is: at the node that
/// its spatial id is mapped to, clipped by the chain that its clip id is mapped
/// to. In a frame that does not apply the root clip of its pipeline, that clip
/// does not clip; and the last number of a clip stands for an invalid clip.
pub open spec fn placed_as_listed(
    before: Flattening,
    item: DisplayItem,
    place: ScrollNodeAndClipChain,
) -> bool {
    let mapping = before.state.mapping;
    &&& mapping.spatial.contains_key(item.space_and_clip.spatial_id)
    &&& place.spatial_node_index == mapping.spatial[item.space_and_clip.spatial_id]
    &&& match item.space_and_clip.clip_id {
        ClipId::Clip(number, _) => if number == 0 && !before.frames.last().apply_pipeline_clip {
            place.clip_chain_id == ClipChainId::Unclipped
        } else if number == u64::MAX {
            place.clip_chain_id == ClipChainId::Invalid
        } else {
            &&& mapping.clips.contains_key(item.space_and_clip.clip_id)
            &&& place.clip_chain_id == mapping.clips[item.space_and_clip.clip_id].id
        },
        ClipId::ClipChain(_) => {
            &&& mapping.clips.contains_key(item.space_and_clip.clip_id)
            &&& place.clip_chain_id == mapping.clips[item.space_and_clip.clip_id].id
        },
    }
}

/// A rectangle of a display list, moved by the offset of the frame that it is
/// in.
pub open spec fn moved(rect: RectF, offset: LayoutVector2D) -> LayoutRect {
    LayoutRect::Translated(Box::new(LayoutRect::Value(rect)), Box::new(offset))
}

/// The corner of a rectangle that it is placed by.
pub open spec fn corner(rect: LayoutRect) -> LayoutPoint {
    LayoutPoint::OriginOf(Box::new(rect))
}

/// The extent of a rectangle.
pub open spec fn extent(rect: LayoutRect) -> LayoutSize {
    LayoutSize::OfRect(Box::new(rect))
}

/// Whether `info` is what a display list says of an item: its rectangles, moved
/// by the offset of the frame, its tag, and whether it shows its back.
pub open spec fn info_as_listed(
    before: Flattening,
    item: DisplayItem,
    info: LayoutPrimitiveInfo,
) -> bool {
    let offset = before.frames.last().offset;
    &&& info.rect == moved(item.rect, offset)
    &&& info.clip_rect == moved(item.clip_rect, offset)
    &&& info.is_backface_visible == item.is_backface_visible
    &&& info.tag == item.tag
}

/// Whether the next step is about an item that is at a known place, and what a
/// display list says of its place and its layout. There is a stacking context to
/// draw it into.
pub open spec fn listed_next(
    before: Flattening,
    item: DisplayItem,
    place: ScrollNodeAndClipChain,
    info: LayoutPrimitiveInfo,
) -> bool {
    &&& comes_next(before, item)
    &&& before.state.sc_stack.len() > 0
    &&& placed_as_listed(before, item, place)
    &&& info_as_listed(before, item, info)
}

/// Whether a step just passes the item that it is about.
pub open spec fn just_passes(before: Flattening, outcome: Outcome) -> bool {
    &&& outcome.result == Ok::<FlattenStep, FlattenError>(FlattenStep::Continue)
    &&& passes_item(before.frames, outcome.flattening.frames)
}

/// Whether an instance comes last in the topmost stacking context, after what
/// was there; the stacking contexts have not changed otherwise.
pub open spec fn draws_last(
    before: Seq<Context>,
    after: Seq<Context>,
    instance: PrimitiveInstance,
) -> bool {
    &&& before.len() > 0
    &&& after.len() == before.len()
    &&& after.drop_last() == before.drop_last()
    &&& after.last() == (FlattenedStackingContext {
        primitives: before.last().primitives.push(instance),
        ..before.last()
    })
}

/// Whether an area can be hit after all others, where it has a tag, and nothing
/// has changed of the others.
pub open spec fn can_be_hit_last(
    before: FlattenerState,
    after: FlattenerState,
    place: ScrollNodeAndClipChain,
    info: LayoutPrimitiveInfo,
) -> bool {
    match info.tag {
        Some(tag) => hit_order(after.hit_testing_runs) == hit_order(before.hit_testing_runs).push(
            (
                HitTestingItem {
                    tag,
                    rect: info.rect,
                    clip_rect: info.clip_rect,
                    is_backface_visible: info.is_backface_visible,
                },
                place,
            ),
        ),
        None => after.hit_testing_runs == before.hit_testing_runs,
    }
}

/// Whether data is asked for to be interned, after all that was before: a
/// primitive, with its layout, its size, and whether it shows its back.
pub open spec fn interns_primitive<'a>(
    before: Seq<InternRequest<'a>>,
    after: Seq<InternRequest<'a>>,
    info: LayoutPrimitiveInfo,
    prim: Primitive<'a>,
) -> bool {
    after == before.push(
        InternRequest::Primitive {
            prim,
            info,
            data: PrimitiveSceneData {
                prim_size: extent(info.rect),
                is_backface_visible: info.is_backface_visible,
            },
        },
    )
}

/// The instance of the primitive whose data is at place `request`, and whose
/// record is at place `record`: it lies at the corner of its rectangle, and is
/// clipped to its clip rectangle and by a clip chain.
pub open spec fn instance_of_primitive(
    info: LayoutPrimitiveInfo,
    place: ScrollNodeAndClipChain,
    request: nat,
    record: nat,
) -> PrimitiveInstance {
    PrimitiveInstance {
        prim_origin: corner(info.rect),
        local_clip_rect: info.clip_rect,
        kind: PrimitiveInstanceKind::Primitive {
            data_handle: RequestIndex { index: request as usize },
            record: record as usize,
        },
        clip_chain_id: place.clip_chain_id,
        spatial_node_index: place.spatial_node_index,
    }
}

/// Whether a primitive is drawn, last in the topmost stacking context: its data
/// is interned, its use is recorded with the offset of its frame, its area can be
/// hit, and nothing else has changed.
pub open spec fn draws_primitive<'a>(
    before: FlattenerState<'a>,
    after: FlattenerState<'a>,
    place: ScrollNodeAndClipChain,
    info: LayoutPrimitiveInfo,
    prim: Primitive<'a>,
    offset: LayoutVector2D,
) -> bool {
    let request = before.requests.len();
    let record = before.prim_store.records.len();
    &&& same_places(before, after)
    &&& after.pending_shadow_items == before.pending_shadow_items
    &&& after.prim_store.pictures == before.prim_store.pictures
    &&& after.root_pic_index == before.root_pic_index
    &&& interns_primitive(before.requests, after.requests, info, prim)
    &&& after.prim_store.records == before.prim_store.records.push(
        PrimitiveRecord {
            data_handle: RequestIndex { index: request as usize },
            reference_frame_relative_offset: offset,
        },
    )
    &&& draws_last(
        before.sc_stack,
        after.sc_stack,
        instance_of_primitive(info, place, request, record),
    )
    &&& can_be_hit_last(before, after, place, info)
}

/// Whether an item waits for the active shadows to end, after those that wait
/// already, and nothing else has changed.
pub open spec fn waits_last<'a>(
    before: FlattenerState<'a>,
    after: FlattenerState<'a>,
    pending: ShadowItem<'a>,
) -> bool {
    &&& same_places(before, after)
    &&& after.sc_stack == before.sc_stack
    &&& after.prim_store == before.prim_store
    &&& after.hit_testing_runs == before.hit_testing_runs
    &&& after.requests == before.requests
    &&& after.root_pic_index == before.root_pic_index
    &&& after.pending_shadow_items == before.pending_shadow_items.push(pending)
}

/// Whether a primitive that can cast a shadow is added: where a shadow is active,
/// it waits; else it is drawn, if it draws anything.
pub open spec fn adds_primitive<'a>(
    before: FlattenerState<'a>,
    after: FlattenerState<'a>,
    place: ScrollNodeAndClipChain,
    info: LayoutPrimitiveInfo,
    prim: Primitive<'a>,
    draws: bool,
    pending: ShadowItem<'a>,
    offset: LayoutVector2D,
) -> bool {
    if before.pending_shadow_items.len() > 0 {
        waits_last(before, after, pending)
    } else if draws {
        draws_primitive(before, after, place, info, prim, offset)
    } else {
        after == before
    }
}

/// Whether a primitive that casts no shadow is added: it is drawn, if it draws
/// anything.
pub open spec fn adds_flat_primitive<'a>(
    before: FlattenerState<'a>,
    after: FlattenerState<'a>,
    place: ScrollNodeAndClipChain,
    info: LayoutPrimitiveInfo,
    prim: Primitive<'a>,
    draws: bool,
    offset: LayoutVector2D,
) -> bool {
    if draws {
        draws_primitive(before, after, place, info, prim, offset)
    } else {
        after == before
    }
}

} // verus!
