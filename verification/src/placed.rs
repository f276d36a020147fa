//! What the display items that place and clip others come to: the law of each of
//! them says, from the item, which positioning nodes and which clips it adds.
use vstd::prelude::*;

use crate::clip_store::{
    clip_chain_len, clip_id_within, ClipChainNode, ClipItemKey, ClipMode, ClipRegion,
    ComplexClipRegion, ImageMask, PlacedImageMask,
};
use crate::display_list::{DisplayItem, ReferenceFrame, ScenePipeline, SpecificDisplayItem};
use crate::drawn::{lemma_step_over, past_item};
use crate::effects::{
    corner, extent, indexable, just_passes, listed_next, moved, opens_frame, same_drawn,
};
use crate::growth::law_step_grows;
use crate::ids::{
    ApiClipChainId, ClipChainId, ClipId, ExternalScrollId, PipelineId, RequestIndex,
    ScrollNodeAndClipChain, SpatialId, SpatialNodeIndex,
};
use crate::laws::{chain_items, clip_whole, law_clip_chain_items, linked_items};
use crate::layout::{
    LayoutPoint, LayoutRect, LayoutSize, LayoutVector2D, PointF, RectF, SizeF, VectorF,
};
use crate::mapper::ClipNode;
use crate::primitives::{InternRequest, LayoutPrimitiveInfo};
use crate::soundness::{clip_stored, lemma_link_clips_keeps};
use crate::spatial_tree::{
    ReferenceFrameInfo, ReferenceFrameKind, ScrollFrameInfo, ScrollFrameKind, ScrollSensitivity,
    SourceTransform, SpatialNode, SpatialNodeType, StickyFrameInfo, StickyMargins,
    StickyOffsetBounds, TransformStyle,
};
use crate::state::{lemma_build_clip_chain_keeps, region_items, FlattenerState};
use crate::traversal::{all_clips_known, FlattenError, FlattenStep, Flattening, Frame, FrameKind};

verus! {

/// An offset, and a point that is given relative to it.
pub open spec fn offset_to(offset: LayoutVector2D, point: PointF) -> LayoutVector2D {
    LayoutVector2D::Sum(
        Box::new(offset),
        Box::new(LayoutVector2D::OfPoint(Box::new(LayoutPoint::Value(point)))),
    )
}

/// Whether a positioning node comes last in the tree, under an id, after those
/// that were there; all other ids stay mapped as they were, and nothing else has
/// changed.
pub open spec fn adds_node(
    before: FlattenerState,
    after: FlattenerState,
    id: SpatialId,
    node: SpatialNode,
) -> bool {
    &&& same_drawn(before, after)
    &&& after.requests == before.requests
    &&& after.clip_nodes == before.clip_nodes
    &&& after.pipeline_clip_chain_stack == before.pipeline_clip_chain_stack
    &&& after.mapping.clips == before.mapping.clips
    &&& after.tree == before.tree.push(node)
    &&& after.mapping.spatial == before.mapping.spatial.insert(
        id,
        SpatialNodeIndex { index: before.tree.len() as usize },
    )
}

/// What is done with an item that places or clips others.
pub proof fn lemma_placing_item<'a>(
    next: Flattening<'a>,
    item: &'a DisplayItem,
    clip_and_scroll: ScrollNodeAndClipChain,
)
    ensures
        ({
            let state = next.state;
            let offset = next.frames.last().offset;
            let spatial_node_index = clip_and_scroll.spatial_node_index;
            let outcome = next.flatten_placed_item(item, clip_and_scroll);
            match item.item {
                SpecificDisplayItem::PushReferenceFrame(reference_frame) => outcome
                    == next.flatten_reference_frame(*item, reference_frame, spatial_node_index),
                SpecificDisplayItem::Iframe { pipeline_id } => outcome == next.flatten_iframe(
                    *item,
                    pipeline_id,
                    spatial_node_index,
                ),
                SpecificDisplayItem::Clip { id, image_mask, complex_clips } => outcome
                    == next.flatten_clip(
                    *item,
                    id,
                    ClipRegion::create_for_clip_node(
                        item.clip_rect,
                        &complex_clips,
                        image_mask,
                        offset,
                    ),
                ),
                SpecificDisplayItem::ClipChain { id, parent, clip_ids } => outcome
                    == next.flatten_clip_chain(
                    id,
                    parent,
                    clip_ids@,
                ),
                SpecificDisplayItem::ScrollFrame {
                    clip_id,
                    scroll_frame_id,
                    external_id,
                    scroll_sensitivity,
                    image_mask,
                    complex_clips,
                } => outcome == next.flatten_scroll_frame(
                    *item,
                    clip_id,
                    ClipRegion::create_for_clip_node(
                        item.clip_rect,
                        &complex_clips,
                        image_mask,
                        offset,
                    ),
                    scroll_frame_id,
                    external_id,
                    scroll_sensitivity,
                    spatial_node_index,
                ),
                SpecificDisplayItem::StickyFrame {
                    id,
                    margins,
                    vertical_offset_bounds,
                    horizontal_offset_bounds,
                    previously_applied_offset,
                } => outcome == next.with_state(
                    state.add_sticky_frame(
                        id,
                        spatial_node_index,
                        StickyFrameInfo {
                            frame_rect: LayoutRect::Value(item.rect).translate(offset),
                            margins,
                            vertical_offset_bounds,
                            horizontal_offset_bounds,
                            previously_applied_offset,
                        },
                    ),
                ).goes_on(),
                SpecificDisplayItem::PushShadow(shadow) => outcome == next.with_state(
                    state.push_shadow(shadow, clip_and_scroll),
                ).goes_on(),
                _ => true,
            }
        }),
{
    reveal(Flattening::flatten_placed_item);
}

/// A reference frame becomes a positioning node under the node that it is placed
/// at. Its origin is the offset of the frame that it is in, plus its own corner.
/// What is in it is placed relative to it.
pub proof fn law_reference_frame_placed<'a>(
    before: Flattening<'a>,
    item: DisplayItem,
    place: ScrollNodeAndClipChain,
    info: LayoutPrimitiveInfo,
    reference_frame: ReferenceFrame,
)
    requires
        listed_next(before, item, place, info),
        item.item == SpecificDisplayItem::PushReferenceFrame(reference_frame),
    ensures
        before.step().result == Ok::<FlattenStep, FlattenError>(FlattenStep::Continue),
        ({
            let top = before.frames.last();
            &&& adds_node(
                before.state,
                before.step().flattening.state,
                reference_frame.id,
                SpatialNode {
                    parent: Some(place.spatial_node_index),
                    node_type: SpatialNodeType::ReferenceFrame(
                        ReferenceFrameInfo {
                            transform_style: reference_frame.transform_style,
                            source_transform: reference_frame.transform,
                            kind: reference_frame.kind,
                            origin_in_parent_reference_frame: offset_to(
                                top.offset,
                                item.rect.origin,
                            ),
                        },
                    ),
                    pipeline_id: top.pipeline_id,
                },
            )
            &&& opens_frame(
                before.frames,
                before.step().flattening.frames,
                Frame {
                    kind: FrameKind::ReferenceFrame,
                    list: top.list,
                    cursor: (top.cursor + 1) as usize,
                    pipeline_id: top.pipeline_id,
                    offset: LayoutVector2D::Zero,
                    apply_pipeline_clip: top.apply_pipeline_clip,
                },
            )
        }),
{
    lemma_step_over(before, item, place);
    lemma_placing_item(past_item(before), &item, place);
}

/// A sticky frame becomes a positioning node under the node that it is placed at,
/// with its rectangle moved by the offset of the frame that it is in.
pub proof fn law_sticky_frame_placed<'a>(
    before: Flattening<'a>,
    item: DisplayItem,
    place: ScrollNodeAndClipChain,
    info: LayoutPrimitiveInfo,
    id: SpatialId,
    margins: StickyMargins,
    vertical_offset_bounds: StickyOffsetBounds,
    horizontal_offset_bounds: StickyOffsetBounds,
    previously_applied_offset: VectorF,
)
    requires
        listed_next(before, item, place, info),
        item.item == (SpecificDisplayItem::StickyFrame {
            id,
            margins,
            vertical_offset_bounds,
            horizontal_offset_bounds,
            previously_applied_offset,
        }),
    ensures
        just_passes(before, before.step()),
        adds_node(
            before.state,
            before.step().flattening.state,
            id,
            SpatialNode {
                parent: Some(place.spatial_node_index),
                node_type: SpatialNodeType::StickyFrame(
                    StickyFrameInfo {
                        frame_rect: moved(item.rect, before.frames.last().offset),
                        margins,
                        vertical_offset_bounds,
                        horizontal_offset_bounds,
                        previously_applied_offset,
                    },
                ),
                pipeline_id: id.pipeline_id,
            },
        ),
{
    lemma_step_over(before, item, place);
    lemma_placing_item(past_item(before), &item, place);
}

/// A shape to clip by: a rectangle that it lies in, and what it is.
pub struct Shape {
    pub rect: LayoutRect,
    pub key: ClipItemKey,
}

/// The rectangle of a clip, as a shape.
pub open spec fn main_shape(clip_rect: RectF, offset: LayoutVector2D) -> Shape {
    let rect = moved(clip_rect, offset);
    Shape { rect, key: ClipItemKey::Rectangle(extent(rect), ClipMode::Clip) }
}

/// The shapes of a clip: its rectangle, its mask, if it has one, and its rounded
/// rectangles, all moved by the same offset.
pub open spec fn shapes(
    clip_rect: RectF,
    image_mask: Option<ImageMask>,
    complex_clips: Seq<ComplexClipRegion>,
    offset: LayoutVector2D,
) -> Seq<Shape> {
    let masks = match image_mask {
        Some(mask) => seq![
            Shape {
                rect: moved(mask.rect, offset),
                key: ClipItemKey::ImageMask(
                    PlacedImageMask {
                        image: mask.image,
                        rect: moved(mask.rect, offset),
                        repeat: mask.repeat,
                    },
                ),
            },
        ],
        None => Seq::empty(),
    };
    let rounded = Seq::new(
        complex_clips.len(),
        |i: int|
            Shape {
                rect: moved(complex_clips[i].rect, offset),
                key: ClipItemKey::RoundedRect(
                    extent(moved(complex_clips[i].rect, offset)),
                    complex_clips[i].radii,
                    complex_clips[i].mode,
                ),
            },
    );
    seq![main_shape(clip_rect, offset)] + masks + rounded
}

/// Whether each of the shapes has a node of its own, after those that were there:
/// the node lies at the corner of the shape, moves with a positioning node, and
/// is parented to the node of the shape before, the first one to `parent`. The
/// shapes are interned in order.
pub open spec fn adds_clip_nodes<'a>(
    before: FlattenerState<'a>,
    after: FlattenerState<'a>,
    shapes: Seq<Shape>,
    spatial_node_index: SpatialNodeIndex,
    parent: ClipChainId,
) -> bool {
    let nodes = before.clip_nodes.len();
    let requests = before.requests.len();
    &&& after.clip_nodes.len() == nodes + shapes.len()
    &&& after.requests.len() == requests + shapes.len()
    &&& forall|i: int| 0 <= i < nodes ==> #[trigger] after.clip_nodes[i] == before.clip_nodes[i]
    &&& forall|i: int| 0 <= i < requests ==> #[trigger] after.requests[i] == before.requests[i]
    &&& forall|k: int|
        0 <= k < shapes.len() ==> {
            &&& after.requests[requests + k] == InternRequest::<'a>::Clip(shapes[k].key)
            &&& after.clip_nodes[nodes + k] == (ClipChainNode {
                handle: RequestIndex { index: (requests + k) as usize },
                local_pos: corner((#[trigger] shapes[k]).rect),
                spatial_node_index,
                parent_clip_chain_id: if k == 0 {
                    parent
                } else {
                    ClipChainId::Node((nodes + k - 1) as usize)
                },
            })
        }
}

/// Whether a clip of a display list is added: its shapes, at the node that its
/// spatial id is mapped to, on top of the chain that its clip id is mapped to. Its
/// id is mapped to the last of its nodes, and to how many they are; all other ids
/// stay mapped as they were.
pub open spec fn adds_clip<'a>(
    before: FlattenerState<'a>,
    after: FlattenerState<'a>,
    item: DisplayItem,
    id: ClipId,
    shapes: Seq<Shape>,
) -> bool {
    &&& before.mapping.spatial.contains_key(item.space_and_clip.spatial_id)
    &&& before.mapping.clips.contains_key(item.space_and_clip.clip_id)
    &&& adds_clip_nodes(
        before,
        after,
        shapes,
        before.mapping.spatial[item.space_and_clip.spatial_id],
        before.mapping.clips[item.space_and_clip.clip_id].id,
    )
    &&& after.mapping.clips == before.mapping.clips.insert(
        id,
        ClipNode {
            id: ClipChainId::Node((before.clip_nodes.len() + shapes.len() - 1) as usize),
            count: shapes.len() as usize,
        },
    )
}

/// A chain that is built has a node for each of its shapes.
proof fn lemma_adds_clip_nodes<'a>(
    state: FlattenerState<'a>,
    items: Seq<(LayoutPoint, ClipItemKey)>,
    listed: Seq<Shape>,
    spatial_node_index: SpatialNodeIndex,
    parent: ClipChainId,
)
    requires
        items.len() == listed.len(),
        forall|k: int|
            0 <= k < items.len() ==> (#[trigger] items[k]) == (
                corner(listed[k].rect),
                listed[k].key,
            ),
    ensures
        adds_clip_nodes(
            state,
            state.build_clip_chain(items, spatial_node_index, parent),
            listed,
            spatial_node_index,
            parent,
        ),
    decreases items.len(),
{
    if items.len() > 0 {
        let next = state.add_clip_item(items[0].0, items[0].1, spatial_node_index, parent);
        let rest = items.drop_first();
        let shapes_left = listed.drop_first();
        assert forall|k: int| 0 <= k < rest.len() implies (#[trigger] rest[k]) == (
            corner(shapes_left[k].rect),
            shapes_left[k].key,
        ) by {
            assert(rest[k] == items[k + 1]);
        }
        lemma_adds_clip_nodes(next, rest, shapes_left, spatial_node_index, state.next_clip());
        let after = next.build_clip_chain(rest, spatial_node_index, state.next_clip());
        let nodes = state.clip_nodes.len();
        let requests = state.requests.len();
        assert forall|i: int| 0 <= i < nodes implies #[trigger] after.clip_nodes[i]
            == state.clip_nodes[i] by {
            assert(after.clip_nodes[i] == next.clip_nodes[i]);
        }
        assert forall|i: int| 0 <= i < requests implies #[trigger] after.requests[i]
            == state.requests[i] by {
            assert(after.requests[i] == next.requests[i]);
        }
        assert forall|k: int| 0 <= k < listed.len() implies {
            &&& after.requests[requests + k] == InternRequest::<'a>::Clip(listed[k].key)
            &&& after.clip_nodes[nodes + k] == (ClipChainNode {
                handle: RequestIndex { index: (requests + k) as usize },
                local_pos: corner((#[trigger] listed[k]).rect),
                spatial_node_index,
                parent_clip_chain_id: if k == 0 {
                    parent
                } else {
                    ClipChainId::Node((nodes + k - 1) as usize)
                },
            })
        } by {
            assert(items[k] == (corner(listed[k].rect), listed[k].key));
            if k == 0 {
                assert(after.clip_nodes[nodes as int] == next.clip_nodes[nodes as int]);
                assert(after.requests[requests as int] == next.requests[requests as int]);
            } else {
                assert(shapes_left[k - 1] == listed[k]);
                assert(after.clip_nodes[next.clip_nodes.len() + (k - 1)].spatial_node_index
                    == spatial_node_index);
            }
        }
    }
}

/// The items of a region are its shapes.
proof fn lemma_region_shapes(
    clip_rect: RectF,
    image_mask: Option<ImageMask>,
    complex_clips: &Vec<ComplexClipRegion>,
    offset: LayoutVector2D,
)
    ensures
        ({
            let items = region_items(
                ClipRegion::create_for_clip_node(clip_rect, complex_clips, image_mask, offset),
            );
            let listed = shapes(clip_rect, image_mask, complex_clips@, offset);
            &&& items.len() == listed.len()
            &&& forall|k: int|
                0 <= k < items.len() ==> (#[trigger] items[k]) == (
                    corner(listed[k].rect),
                    listed[k].key,
                )
        }),
{
}

/// A clip of a display list is added with all its shapes.
pub proof fn law_clip_added<'a>(
    before: Flattening<'a>,
    item: DisplayItem,
    place: ScrollNodeAndClipChain,
    info: LayoutPrimitiveInfo,
    id: ClipId,
    image_mask: Option<ImageMask>,
    complex_clips: &'a Vec<ComplexClipRegion>,
)
    requires
        listed_next(before, item, place, info),
        item.item == (SpecificDisplayItem::Clip {
            id,
            image_mask,
            complex_clips: *complex_clips,
        }),
        before.state.mapping.clips.contains_key(item.space_and_clip.clip_id),
    ensures
        just_passes(before, before.step()),
        ({
            let after = before.step().flattening.state;
            &&& adds_clip(
                before.state,
                after,
                item,
                id,
                shapes(
                    item.clip_rect,
                    image_mask,
                    complex_clips@,
                    before.frames.last().offset,
                ),
            )
            &&& same_drawn(before.state, after)
            &&& after.tree == before.state.tree
            &&& after.mapping.spatial == before.state.mapping.spatial
            &&& after.pipeline_clip_chain_stack == before.state.pipeline_clip_chain_stack
        }),
{
    lemma_step_over(before, item, place);
    lemma_placing_item(past_item(before), &item, place);
    let offset = before.frames.last().offset;
    let state = before.state;
    let region = ClipRegion::create_for_clip_node(
        item.clip_rect,
        complex_clips,
        image_mask,
        offset,
    );
    let spatial_node_index = state.mapping.spatial[item.space_and_clip.spatial_id];
    let parent = state.mapping.clips[item.space_and_clip.clip_id].id;
    lemma_region_shapes(item.clip_rect, image_mask, complex_clips, offset);
    lemma_adds_clip_nodes(
        state,
        region_items(region),
        shapes(item.clip_rect, image_mask, complex_clips@, offset),
        spatial_node_index,
        parent,
    );
    lemma_build_clip_chain_keeps(state, region_items(region), spatial_node_index, parent);
}

/// Every node that a clip of a display list adds moves with the node that the
/// spatial id of the clip is mapped to.
pub proof fn law_clip_moves_with_its_node<'a>(
    before: Flattening<'a>,
    item: DisplayItem,
    place: ScrollNodeAndClipChain,
    info: LayoutPrimitiveInfo,
    i: int,
)
    requires
        listed_next(before, item, place, info),
        item.item is Clip || item.item is ScrollFrame || item.item is Iframe,
        before.state.clip_nodes.len() <= i < before.step().flattening.state.clip_nodes.len(),
    ensures
        before.step().flattening.state.clip_nodes[i].spatial_node_index
            == before.state.mapping.spatial[item.space_and_clip.spatial_id],
{
    lemma_step_over(before, item, place);
    lemma_placing_item(past_item(before), &item, place);
    let offset = before.frames.last().offset;
    let state = before.state;
    let spatial_node_index = state.mapping.spatial[item.space_and_clip.spatial_id];
    let parent = state.mapping.clips[item.space_and_clip.clip_id].id;
    let region = match item.item {
        SpecificDisplayItem::Clip { id, image_mask, complex_clips } => {
            ClipRegion::create_for_clip_node(item.clip_rect, &complex_clips, image_mask, offset)
        },
        SpecificDisplayItem::ScrollFrame { image_mask, complex_clips, .. } => {
            ClipRegion::create_for_clip_node(item.clip_rect, &complex_clips, image_mask, offset)
        },
        _ => ClipRegion::create_for_clip_node_with_local_clip(item.clip_rect, offset),
    };
    lemma_nodes_move(state, region_items(region), spatial_node_index, parent, i);
}

proof fn lemma_nodes_move(
    state: FlattenerState,
    items: Seq<(LayoutPoint, ClipItemKey)>,
    spatial_node_index: SpatialNodeIndex,
    parent: ClipChainId,
    i: int,
)
    ensures
        ({
            let nodes = state.build_clip_chain(items, spatial_node_index, parent).clip_nodes;
            &&& 0 <= i < state.clip_nodes.len() ==> nodes[i] == state.clip_nodes[i]
            &&& state.clip_nodes.len() <= i < nodes.len() ==> nodes[i].spatial_node_index
                == spatial_node_index
        }),
    decreases items.len(),
{
    if items.len() > 0 {
        let next = state.add_clip_item(items[0].0, items[0].1, spatial_node_index, parent);
        let rest = items.drop_first();
        lemma_nodes_move(next, rest, spatial_node_index, state.next_clip(), i);
    }
}

/// A scroll frame is added as a clip, and as a positioning node under the node that
/// it is placed at. The node scrolls content of the size of the rectangle of the
/// item, in the rectangle that it is clipped to.
pub proof fn law_scroll_frame_placed<'a>(
    before: Flattening<'a>,
    item: DisplayItem,
    place: ScrollNodeAndClipChain,
    info: LayoutPrimitiveInfo,
    clip_id: ClipId,
    scroll_frame_id: SpatialId,
    external_id: Option<ExternalScrollId>,
    scroll_sensitivity: ScrollSensitivity,
    image_mask: Option<ImageMask>,
    complex_clips: &'a Vec<ComplexClipRegion>,
)
    requires
        listed_next(before, item, place, info),
        item.item == (SpecificDisplayItem::ScrollFrame {
            clip_id,
            scroll_frame_id,
            external_id,
            scroll_sensitivity,
            image_mask,
            complex_clips: *complex_clips,
        }),
        before.state.mapping.clips.contains_key(item.space_and_clip.clip_id),
    ensures
        just_passes(before, before.step()),
        ({
            let after = before.step().flattening.state;
            let top = before.frames.last();
            &&& adds_clip(
                before.state,
                after,
                item,
                clip_id,
                shapes(item.clip_rect, image_mask, complex_clips@, top.offset),
            )
            &&& same_drawn(before.state, after)
            &&& after.pipeline_clip_chain_stack == before.state.pipeline_clip_chain_stack
            &&& after.tree == before.state.tree.push(
                SpatialNode {
                    parent: Some(place.spatial_node_index),
                    node_type: SpatialNodeType::ScrollFrame(
                        ScrollFrameInfo {
                            external_id,
                            frame_rect: moved(item.clip_rect, top.offset),
                            content_size: item.rect.size,
                            scroll_sensitivity,
                            frame_kind: ScrollFrameKind::Explicit,
                        },
                    ),
                    pipeline_id: top.pipeline_id,
                },
            )
            &&& after.mapping.spatial == before.state.mapping.spatial.insert(
                scroll_frame_id,
                SpatialNodeIndex { index: before.state.tree.len() as usize },
            )
        }),
{
    lemma_step_over(before, item, place);
    lemma_placing_item(past_item(before), &item, place);
    let offset = before.frames.last().offset;
    let state = before.state;
    let region = ClipRegion::create_for_clip_node(
        item.clip_rect,
        complex_clips,
        image_mask,
        offset,
    );
    let spatial_node_index = state.mapping.spatial[item.space_and_clip.spatial_id];
    let parent = state.mapping.clips[item.space_and_clip.clip_id].id;
    lemma_region_shapes(item.clip_rect, image_mask, complex_clips, offset);
    lemma_adds_clip_nodes(
        state,
        region_items(region),
        shapes(item.clip_rect, image_mask, complex_clips@, offset),
        spatial_node_index,
        parent,
    );
    lemma_build_clip_chain_keeps(state, region_items(region), spatial_node_index, parent);
}

/// The number under which a pipeline is kept.
pub open spec fn pipeline_number(pipeline_id: PipelineId) -> u64 {
    (pipeline_id.namespace * 0x1_0000_0000 + pipeline_id.index) as u64
}

/// The nodes at the root of a pipeline: a reference frame at an origin, and under
/// it, as the node at place `place`, a scroll frame, which shows a part of the
/// content as large as a viewport.
pub open spec fn pipeline_root_nodes(
    pipeline_id: PipelineId,
    parent: Option<SpatialNodeIndex>,
    origin: LayoutVector2D,
    viewport_size: SizeF,
    content_size: SizeF,
    place: nat,
) -> Seq<SpatialNode> {
    seq![
        SpatialNode {
            parent,
            node_type: SpatialNodeType::ReferenceFrame(
                ReferenceFrameInfo {
                    transform_style: TransformStyle::Flat,
                    source_transform: SourceTransform::Identity,
                    kind: ReferenceFrameKind::Transform,
                    origin_in_parent_reference_frame: origin,
                },
            ),
            pipeline_id,
        },
        SpatialNode {
            parent: Some(SpatialNodeIndex { index: place as usize }),
            node_type: SpatialNodeType::ScrollFrame(
                ScrollFrameInfo {
                    external_id: Some(ExternalScrollId { id: 0, pipeline_id }),
                    frame_rect: LayoutRect::New(
                        Box::new(LayoutPoint::Zero),
                        Box::new(LayoutSize::Value(viewport_size)),
                    ),
                    content_size,
                    scroll_sensitivity: ScrollSensitivity::ScriptAndInputEvents,
                    frame_kind: ScrollFrameKind::PipelineRoot,
                },
            ),
            pipeline_id,
        },
    ]
}

/// An iframe whose pipeline is there is clipped to its clip rectangle, which is
/// the root clip of the pipeline. The content is placed at the offset of the frame
/// that the iframe is in, plus the corner of the iframe, and scrolls in an area of
/// the size of the iframe. The display list of the pipeline comes next.
pub proof fn law_iframe_placed<'a>(
    before: Flattening<'a>,
    item: DisplayItem,
    place: ScrollNodeAndClipChain,
    info: LayoutPrimitiveInfo,
    pipeline_id: PipelineId,
    pipeline: &'a ScenePipeline,
)
    requires
        listed_next(before, item, place, info),
        item.item == (SpecificDisplayItem::Iframe { pipeline_id }),
        before.state.scene.pipelines@.contains_key(pipeline_number(pipeline_id)),
        *pipeline == before.state.scene.pipelines@[pipeline_number(pipeline_id)],
        before.state.mapping.clips.contains_key(item.space_and_clip.clip_id),
    ensures
        before.step().result == Ok::<FlattenStep, FlattenError>(FlattenStep::Continue),
        ({
            let after = before.step().flattening.state;
            let top = before.frames.last();
            let nodes = before.state.tree.len();
            &&& adds_clip(
                before.state,
                after,
                item,
                ClipId::Clip(0, pipeline_id),
                seq![main_shape(item.clip_rect, top.offset)],
            )
            &&& same_drawn(before.state, after)
            &&& after.pipeline_clip_chain_stack == before.state.pipeline_clip_chain_stack.push(
                ClipChainId::Node(before.state.clip_nodes.len() as usize),
            )
            &&& after.tree == before.state.tree + pipeline_root_nodes(
                pipeline_id,
                Some(place.spatial_node_index),
                offset_to(top.offset, item.rect.origin),
                item.rect.size,
                pipeline.content_size,
                nodes,
            )
            &&& after.mapping.spatial == before.state.mapping.spatial.insert(
                SpatialId { id: 0, pipeline_id },
                SpatialNodeIndex { index: nodes as usize },
            ).insert(
                SpatialId { id: 1, pipeline_id },
                SpatialNodeIndex { index: (nodes + 1) as usize },
            )
            &&& opens_frame(
                before.frames,
                before.step().flattening.frames,
                Frame {
                    kind: FrameKind::Iframe,
                    list: &pipeline.display_list,
                    cursor: 0,
                    pipeline_id: pipeline.pipeline_id,
                    offset: LayoutVector2D::Zero,
                    apply_pipeline_clip: true,
                },
            )
        }),
{
    lemma_step_over(before, item, place);
    lemma_placing_item(past_item(before), &item, place);
    let offset = before.frames.last().offset;
    let state = before.state;
    let region = ClipRegion::create_for_clip_node_with_local_clip(item.clip_rect, offset);
    let spatial_node_index = state.mapping.spatial[item.space_and_clip.spatial_id];
    let parent = state.mapping.clips[item.space_and_clip.clip_id].id;
    let listed = seq![main_shape(item.clip_rect, offset)];
    assert(region_items(region).len() == 1);
    lemma_adds_clip_nodes(state, region_items(region), listed, spatial_node_index, parent);
    lemma_build_clip_chain_keeps(state, region_items(region), spatial_node_index, parent);
    let after = before.step().flattening.state;
    assert(after.tree =~= before.state.tree + pipeline_root_nodes(
        pipeline_id,
        Some(place.spatial_node_index),
        offset_to(offset, item.rect.origin),
        item.rect.size,
        pipeline.content_size,
        state.tree.len(),
    ));
}

/// After the step over an iframe whose pipeline is there, the node that the root
/// reference frame of the pipeline is mapped to lies at the offset of the frame
/// that the iframe is in, plus the corner of the iframe.
pub proof fn law_iframe_origin<'a>(
    before: Flattening<'a>,
    item: DisplayItem,
    place: ScrollNodeAndClipChain,
    info: LayoutPrimitiveInfo,
    pipeline_id: PipelineId,
)
    requires
        listed_next(before, item, place, info),
        item.item == (SpecificDisplayItem::Iframe { pipeline_id }),
        before.state.scene.pipelines@.contains_key(pipeline_number(pipeline_id)),
        before.state.mapping.clips.contains_key(item.space_and_clip.clip_id),
        before.state.tree.len() <= usize::MAX,
    ensures
        ({
            let after = before.step().flattening.state;
            let root = after.mapping.spatial[SpatialId { id: 0, pipeline_id }];
            &&& after.mapping.spatial.contains_key(SpatialId { id: 0, pipeline_id })
            &&& root.index < after.tree.len()
            &&& after.tree[root.index as int].parent == Some(place.spatial_node_index)
            &&& after.tree[root.index as int].node_type matches SpatialNodeType::ReferenceFrame(
                frame,
            ) && frame.origin_in_parent_reference_frame == LayoutVector2D::Sum(
                Box::new(before.frames.last().offset),
                Box::new(
                    LayoutVector2D::OfPoint(Box::new(LayoutPoint::Value(item.rect.origin))),
                ),
            )
        }),
{
    let pipeline = &before.state.scene.pipelines@[pipeline_number(pipeline_id)];
    law_iframe_placed(before, item, place, info, pipeline_id, pipeline);
}

/// An iframe whose pipeline is missing adds nothing.
pub proof fn law_missing_iframe_skipped<'a>(
    before: Flattening<'a>,
    item: DisplayItem,
    place: ScrollNodeAndClipChain,
    info: LayoutPrimitiveInfo,
    pipeline_id: PipelineId,
)
    requires
        listed_next(before, item, place, info),
        item.item == (SpecificDisplayItem::Iframe { pipeline_id }),
        !before.state.scene.pipelines@.contains_key(pipeline_number(pipeline_id)),
    ensures
        just_passes(before, before.step()),
        before.step().flattening.state == before.state,
{
    lemma_step_over(before, item, place);
    lemma_placing_item(past_item(before), &item, place);
}

/// A clip chain of a display list consists of what its clips consist of, each clip
/// on top of those listed before it, and then of what its parent consists of: the
/// clip chain that is given, or else the root clip of the pipeline. Nothing is
/// interned anew.
pub proof fn law_clip_chain_added<'a>(
    before: Flattening<'a>,
    item: DisplayItem,
    place: ScrollNodeAndClipChain,
    info: LayoutPrimitiveInfo,
    id: ApiClipChainId,
    parent: Option<ApiClipChainId>,
    clip_ids: &'a Vec<ClipId>,
)
    requires
        before.wf(),
        indexable(before.step().flattening.state),
        listed_next(before, item, place, info),
        item.item == (SpecificDisplayItem::ClipChain { id, parent, clip_ids: *clip_ids }),
        parent matches Some(parent_id) ==> before.state.mapping.clips.contains_key(
            ClipId::ClipChain(parent_id),
        ),
        forall|i: int|
            0 <= i < clip_ids@.len() ==> before.state.mapping.clips.contains_key(
                #[trigger] clip_ids@[i],
            ),
    ensures
        just_passes(before, before.step()),
        ({
            let state = before.state;
            let after = before.step().flattening.state;
            let parent_chain = match parent {
                Some(parent_id) => state.mapping.clips[ClipId::ClipChain(parent_id)].id,
                None => state.pipeline_clip_chain_stack.last(),
            };
            let node = after.mapping.clips[ClipId::ClipChain(id)];
            &&& same_drawn(state, after)
            &&& after.tree == state.tree
            &&& after.mapping.spatial == state.mapping.spatial
            &&& after.pipeline_clip_chain_stack == state.pipeline_clip_chain_stack
            &&& after.requests == state.requests
            &&& state.clip_nodes.is_prefix_of(after.clip_nodes)
            &&& after.mapping.clips == state.mapping.clips.insert(ClipId::ClipChain(id), node)
            &&& node.count == 0
            &&& chain_items(after.clip_nodes, node.id) == linked_items(
                state,
                clip_ids@,
                chain_items(state.clip_nodes, parent_chain),
            )
        }),
{
    lemma_step_over(before, item, place);
    lemma_placing_item(past_item(before), &item, place);
    let state = before.state;
    let parent_chain = match parent {
        Some(parent_id) => state.mapping.clips[ClipId::ClipChain(parent_id)].id,
        None => state.pipeline_clip_chain_stack.last(),
    };
    lemma_link_clips_keeps(state, clip_ids@, parent_chain);
    law_step_grows(before);
    assert(all_clips_known(state, clip_ids@));
    assert(clip_id_within(parent_chain, state.clip_nodes.len())) by {
        match parent {
            Some(parent_id) => {
                assert(clip_stored(
                    state.mapping.clips[ClipId::ClipChain(parent_id)],
                    state.clip_nodes,
                ));
            },
            None => {},
        }
    }
    assert forall|i: int| 0 <= i < clip_ids@.len() implies clip_whole(
        state,
        #[trigger] clip_ids@[i],
    ) by {
        let node = state.mapping.clips[clip_ids@[i]];
        assert(clip_stored(node, state.clip_nodes));
        lemma_chain_items_len(state.clip_nodes, node.id);
    }
    law_clip_chain_items(state, clip_ids@, parent_chain);
}

/// A chain has as many items as nodes.
proof fn lemma_chain_items_len(nodes: Seq<ClipChainNode>, id: ClipChainId)
    ensures
        chain_items(nodes, id).len() == clip_chain_len(nodes, id),
    decreases
            match id {
                ClipChainId::Node(i) => i + 1,
                _ => 0,
            },
{
    if let ClipChainId::Node(i) = id {
        if i < nodes.len() && clip_id_within(nodes[i as int].parent_clip_chain_id, i as nat) {
            lemma_chain_items_len(nodes, nodes[i as int].parent_clip_chain_id);
        }
    }
}

} // verus!
