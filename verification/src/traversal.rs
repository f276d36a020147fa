//! The way through display lists, item by item.
//!
//! A traversal is a stack of frames. A frame is a place in a display list,
//! together with what applies to the items there; a stacking context, a
//! reference frame or an iframe opens a frame, and the item that ends it, or the
//! end of the list, closes it.
//!
//! One call flattens one item. Where the embedder has to do or to know something
//! before the next item, the call says so in what it returns.
use vstd::prelude::*;

use crate::clip_store::{
    clip_chain_len, clip_id_within, lemma_clip_chain_len_push, ClipRegion,
};
use crate::display_list::{
    BorderDetails, BoxShadowDisplayItem, DisplayItem, ReferenceFrame, ScenePipeline,
    SpecificDisplayItem, StackingContext,
};
use crate::flattener::{lemma_fits, DisplayListFlattener};
use crate::growth::{law_end_stacking_context_grows, law_step_grows};
use crate::ids::{
    ApiClipChainId, ClipChainId, ClipId, ExternalScrollId, PictureIndex, PipelineId,
    ScrollNodeAndClipChain, SpatialId, SpatialNodeIndex,
};
use crate::items::{linear_gradient, radial_gradient, NormalBorderRequest};
use crate::layout::{LayoutRect, LayoutSize, LayoutVector2D};
use crate::picture::{FilterOp, PictureCompositeMode};
use crate::primitives::LayoutPrimitiveInfo;
use crate::soundness::{
    clip_stored, law_can_pop, law_can_push, lemma_add_clip_node_wf,
    lemma_copy_clip_nodes_keeps,
};
use crate::spatial_tree::{ScrollFrameKind, ScrollSensitivity, StickyFrameInfo};
use crate::stacking_context::CompositeOps;
use crate::state::FlattenerState;
use crate::stepping::{
    frame_ok_at, law_end_stacking_context_wf, law_requests_are_sound, law_step_wf,
    lemma_contexts_open, lemma_with_cursor_wf,
};

verus! {

/// What opened a frame.
#[derive(Clone, Copy, Debug, PartialEq, Eq, Structural)]
pub enum FrameKind {
    /// The root pipeline.
    Root,
    /// A stacking context.
    StackingContext,
    /// A stacking context, all items of which are done.
    ClosingStackingContext,
    /// A reference frame.
    ReferenceFrame,
    /// An iframe, with a display list of its own.
    Iframe,
}

/// A place in a display list, and what applies to the items there.
#[derive(Debug)]
pub struct Frame<'a> {
    pub kind: FrameKind,
    /// The display list.
    pub list: &'a Vec<DisplayItem>,
    /// The place in it of the next item.
    pub cursor: usize,
    /// The pipeline that the display list belongs to.
    pub pipeline_id: PipelineId,
    /// The offset from the reference frame that items are placed relative to.
    pub offset: LayoutVector2D,
    /// Whether items that are clipped by nothing but the root clip of the
    /// pipeline are clipped by that.
    pub apply_pipeline_clip: bool,
}

/// A stack of frames.
#[derive(Debug)]
pub struct Traversal<'a> {
    pub frames: Vec<Frame<'a>>,
}

impl<'a> View for Traversal<'a> {
    type V = Seq<Frame<'a>>;

    open spec fn view(&self) -> Seq<Frame<'a>> {
        self.frames@
    }
}

/// The shadow of a box, which the embedder turns into primitives: it is where
/// the shapes of such shadows are computed.
#[derive(Debug)]
pub struct BoxShadowRequest {
    pub clip_and_scroll: ScrollNodeAndClipChain,
    pub info: LayoutPrimitiveInfo,
    pub box_shadow: BoxShadowDisplayItem,
    pub reference_frame_relative_offset: LayoutVector2D,
}

/// What the embedder has to do before the next item.
#[derive(Debug)]
pub enum FlattenStep {
    /// Nothing.
    Continue,
    /// Find out whether a positioning node leaves everything where it is, and
    /// end the stacking context with the answer.
    CloseStackingContext { spatial_node_index: SpatialNodeIndex },
    /// Add the shadow of a box.
    BoxShadow(BoxShadowRequest),
    /// Add a border with a style for each side.
    NormalBorder(NormalBorderRequest),
    /// Try to collapse each marked picture from `from` on into what it draws, in
    /// the order of the pictures, and tell how it is drawn then.
    OptimizePictures { from: PictureIndex },
    /// There is no next item.
    Finished,
}

/// What a display list, or the scene, can have wrong.
#[derive(Clone, Copy, Debug, PartialEq, Eq, Structural)]
pub enum FlattenError {
    /// The scene has no root pipeline.
    NoRootPipeline,
    /// A positioning node is used that was not defined before.
    UnknownSpatialNode,
    /// A clip is used that was not defined before.
    UnknownClip,
    /// Shadows are popped where none is active.
    NoPendingShadows,
    /// A stacking context ends where a shadow is active.
    UnpoppedShadows,
}

/// A state, and a way through display lists.
#[verifier::ext_equal]
pub struct Flattening<'a> {
    pub state: FlattenerState<'a>,
    pub frames: Seq<Frame<'a>>,
}

/// What a step comes to.
pub struct Outcome<'a> {
    pub flattening: Flattening<'a>,
    pub result: Result<FlattenStep, FlattenError>,
}

/// Where an item is placed, and what clips it. Items inside a stacking context
/// that has a clip itself are not clipped by the root clip of their pipeline.
pub open spec fn item_clip_and_scroll(
    state: FlattenerState,
    item: DisplayItem,
    apply_pipeline_clip: bool,
) -> Result<ScrollNodeAndClipChain, FlattenError> {
    let clip_id = item.space_and_clip.clip_id;
    let spatial_id = item.space_and_clip.spatial_id;
    if !state.mapping.spatial.contains_key(spatial_id) {
        Err(FlattenError::UnknownSpatialNode)
    } else {
        let spatial_node_index = state.mapping.spatial[spatial_id];
        if !apply_pipeline_clip && clip_id.is_root() {
            Ok(ScrollNodeAndClipChain { spatial_node_index, clip_chain_id: ClipChainId::Unclipped })
        } else if !clip_id.is_valid() {
            Ok(ScrollNodeAndClipChain { spatial_node_index, clip_chain_id: ClipChainId::Invalid })
        } else if state.mapping.clips.contains_key(clip_id) {
            Ok(
                ScrollNodeAndClipChain {
                    spatial_node_index,
                    clip_chain_id: state.mapping.clips[clip_id].id,
                },
            )
        } else {
            Err(FlattenError::UnknownClip)
        }
    }
}

/// Whether nothing is left to do in a display list before an item that ends
/// what an earlier item began.
pub open spec fn at_end_of_frame(list: Seq<DisplayItem>, cursor: int) -> bool {
    cursor >= list.len() || list[cursor].spec_is_pop()
}

/// Whether a stacking context whose items start at `cursor` is empty.
pub open spec fn stacking_context_empty(list: Seq<DisplayItem>, cursor: int) -> bool {
    cursor >= list.len() || list[cursor].item is PopStackingContext
}

/// The place after the item at `cursor`, or the end of the list.
pub open spec fn past(list: Seq<DisplayItem>, cursor: usize) -> usize {
    if cursor < list.len() {
        (cursor + 1) as usize
    } else {
        cursor
    }
}

/// Whether all clips of a list are defined.
pub open spec fn all_clips_known(state: FlattenerState, clip_ids: Seq<ClipId>) -> bool {
    forall|i: int|
        0 <= i < clip_ids.len() ==> state.mapping.clips.contains_key(#[trigger] clip_ids[i])
}

impl<'a> Flattening<'a> {
    /// The frame of the next item.
    pub open spec fn top(self) -> Frame<'a> {
        self.frames.last()
    }

    /// This flattening, with nothing to do for the embedder.
    pub open spec fn goes_on(self) -> Outcome<'a> {
        Outcome { flattening: self, result: Ok(FlattenStep::Continue) }
    }

    /// This flattening, with something to do for the embedder.
    pub open spec fn asks(self, step: FlattenStep) -> Outcome<'a> {
        Outcome { flattening: self, result: Ok(step) }
    }

    /// This flattening, with an error.
    pub open spec fn fails(self, error: FlattenError) -> Outcome<'a> {
        Outcome { flattening: self, result: Err(error) }
    }

    /// This flattening, in another state.
    pub open spec fn with_state(self, state: FlattenerState<'a>) -> Self {
        Flattening { state, ..self }
    }

    /// This flattening, with the cursor of the topmost frame moved.
    pub open spec fn with_cursor(self, cursor: usize) -> Self {
        Flattening {
            frames: self.frames.drop_last().push(Frame { cursor, ..self.top() }),
            ..self
        }
    }

    /// This flattening, with a frame opened.
    pub open spec fn open_frame(self, frame: Frame<'a>) -> Self {
        Flattening { frames: self.frames.push(frame), ..self }
    }

    /// This flattening, with the topmost frame closed. A frame in the same
    /// display list goes on where the closed one ended.
    pub open spec fn close_frame(self) -> Self {
        let below = Flattening { frames: self.frames.drop_last(), ..self };
        if self.top().kind is Iframe || below.frames.len() == 0 {
            below
        } else {
            below.with_cursor(self.top().cursor)
        }
    }

    /// The step that asks how the topmost stacking context is to be ended.
    pub open spec fn close_request(self) -> FlattenStep {
        FlattenStep::CloseStackingContext {
            spatial_node_index: self.state.sc_stack.last().spatial_node_index,
        }
    }

    /// Leaves the topmost frame, all items of which are done.
    pub open spec fn leave_frame(self) -> Outcome<'a> {
        match self.top().kind {
            FrameKind::Root => if self.state.pending_shadow_items.len() > 0 {
                self.fails(FlattenError::UnpoppedShadows)
            } else {
                self.with_state(self.state.pop_stacking_context(false)).close_frame().asks(
                    FlattenStep::Finished,
                )
            },
            FrameKind::StackingContext => Flattening {
                frames: self.frames.drop_last().push(
                    Frame { kind: FrameKind::ClosingStackingContext, ..self.top() },
                ),
                ..self
            }.asks(self.close_request()),
            FrameKind::ClosingStackingContext => self.asks(self.close_request()),
            FrameKind::ReferenceFrame => self.close_frame().goes_on(),
            FrameKind::Iframe => self.with_state(
                FlattenerState {
                    pipeline_clip_chain_stack: self.state.pipeline_clip_chain_stack.drop_last(),
                    ..self.state
                },
            ).close_frame().goes_on(),
        }
    }

    /// Ends the topmost stacking context, all items of which are done.
    pub open spec fn end_stacking_context(self, node_is_identity: bool) -> Outcome<'a> {
        if self.state.pending_shadow_items.len() > 0 && !self.state.top_is_redundant(
            node_is_identity,
        ) {
            self.fails(FlattenError::UnpoppedShadows)
        } else {
            self.with_state(
                self.state.pop_stacking_context(node_is_identity),
            ).close_frame().asks(self.optimize_request(node_is_identity))
        }
    }

    /// What the embedder has to do after the topmost stacking context is ended:
    /// where it made pictures for filters, these are to be optimized at once.
    pub open spec fn optimize_request(self, node_is_identity: bool) -> FlattenStep {
        if !self.state.top_is_redundant(node_is_identity)
            && self.state.sc_stack.last().composite_ops.filters.len() > 0 {
            FlattenStep::OptimizePictures { from: self.state.prim_store.next_picture() }
        } else {
            FlattenStep::Continue
        }
    }

    /// Flattens the start of a stacking context. An empty one is skipped.
    pub open spec fn flatten_stacking_context(
        self,
        item: DisplayItem,
        stacking_context: StackingContext,
        filters: Seq<FilterOp>,
        spatial_node_index: SpatialNodeIndex,
    ) -> Outcome<'a> {
        let top = self.top();
        if stacking_context_empty(top.list@, top.cursor as int) {
            self.with_cursor(past(top.list@, top.cursor)).goes_on()
        } else if stacking_context.clip_id matches Some(clip_id)
            && !self.state.mapping.clips.contains_key(clip_id) {
            self.fails(FlattenError::UnknownClip)
        } else {
            let clip_chain_id = match stacking_context.clip_id {
                Some(clip_id) => self.state.mapping.clips[clip_id].id,
                None => ClipChainId::Unclipped,
            };
            self.with_state(
                self.state.push_stacking_context(
                    top.pipeline_id,
                    CompositeOps { filters, mix_blend_mode: stacking_context.mix_blend_mode },
                    stacking_context.transform_style,
                    item.is_backface_visible,
                    stacking_context.cache_tiles,
                    spatial_node_index,
                    clip_chain_id,
                    stacking_context.raster_space,
                ),
            ).open_frame(
                Frame {
                    kind: FrameKind::StackingContext,
                    offset: top.offset.plus_point(item.rect.origin),
                    apply_pipeline_clip: top.apply_pipeline_clip && clip_chain_id
                        == ClipChainId::Unclipped,
                    ..top
                },
            ).goes_on()
        }
    }

    /// Flattens the start of a reference frame.
    pub open spec fn flatten_reference_frame(
        self,
        item: DisplayItem,
        reference_frame: ReferenceFrame,
        parent_spatial_node: SpatialNodeIndex,
    ) -> Outcome<'a> {
        let top = self.top();
        self.with_state(
            self.state.push_reference_frame(
                reference_frame.id,
                Some(parent_spatial_node),
                top.pipeline_id,
                reference_frame.transform_style,
                reference_frame.transform,
                reference_frame.kind,
                top.offset.plus_point(item.rect.origin),
            ),
        ).open_frame(
            Frame { kind: FrameKind::ReferenceFrame, offset: LayoutVector2D::Zero, ..top },
        ).goes_on()
    }

    /// Flattens the start of an iframe. One whose pipeline is missing is
    /// skipped.
    pub open spec fn flatten_iframe(
        self,
        item: DisplayItem,
        iframe_pipeline_id: PipelineId,
        spatial_node_index: SpatialNodeIndex,
    ) -> Outcome<'a> {
        let top = self.top();
        if !self.state.scene.pipelines@.contains_key(iframe_pipeline_id.key()) {
            self.goes_on()
        } else if !self.state.mapping.clips.contains_key(item.space_and_clip.clip_id) {
            self.fails(FlattenError::UnknownClip)
        } else {
            let pipeline: &'a ScenePipeline =
                &self.state.scene.pipelines@[iframe_pipeline_id.key()];
            let clipped = self.state.add_clip_node(
                ClipId::root(iframe_pipeline_id),
                item.space_and_clip,
                ClipRegion::create_for_clip_node_with_local_clip(item.clip_rect, top.offset),
            );
            self.with_state(
                FlattenerState {
                    pipeline_clip_chain_stack: clipped.pipeline_clip_chain_stack.push(
                        clipped.mapping.clips[ClipId::root(iframe_pipeline_id)].id,
                    ),
                    ..clipped
                }.add_pipeline_frames(
                    iframe_pipeline_id,
                    Some(spatial_node_index),
                    top.offset.plus_point(item.rect.origin),
                    item.rect.size,
                    pipeline.content_size,
                ),
            ).open_frame(
                Frame {
                    kind: FrameKind::Iframe,
                    list: &pipeline.display_list,
                    cursor: 0,
                    pipeline_id: pipeline.pipeline_id,
                    offset: LayoutVector2D::Zero,
                    apply_pipeline_clip: true,
                },
            ).goes_on()
        }
    }

    /// Flattens a clip.
    pub open spec fn flatten_clip(
        self,
        item: DisplayItem,
        id: ClipId,
        region: ClipRegion,
    ) -> Outcome<'a> {
        if self.state.mapping.clips.contains_key(item.space_and_clip.clip_id) {
            self.with_state(
                self.state.add_clip_node(id, item.space_and_clip, region),
            ).goes_on()
        } else {
            self.fails(FlattenError::UnknownClip)
        }
    }

    /// Flattens a scroll frame: a clip, and a positioning node. The clip
    /// rectangle is the frame rectangle.
    pub open spec fn flatten_scroll_frame(
        self,
        item: DisplayItem,
        clip_id: ClipId,
        region: ClipRegion,
        scroll_frame_id: SpatialId,
        external_id: Option<ExternalScrollId>,
        scroll_sensitivity: ScrollSensitivity,
        parent_node_index: SpatialNodeIndex,
    ) -> Outcome<'a> {
        if self.state.mapping.clips.contains_key(item.space_and_clip.clip_id) {
            self.with_state(
                self.state.add_clip_node(clip_id, item.space_and_clip, region).add_scroll_frame(
                    scroll_frame_id,
                    parent_node_index,
                    external_id,
                    self.top().pipeline_id,
                    region.main,
                    item.rect.size,
                    scroll_sensitivity,
                    ScrollFrameKind::Explicit,
                ),
            ).goes_on()
        } else {
            self.fails(FlattenError::UnknownClip)
        }
    }

    /// Flattens a clip chain: everything that the listed clips consist of, on
    /// top of the parent clip chain, which is the root clip chain of the
    /// pipeline where none is given.
    pub open spec fn flatten_clip_chain(
        self,
        id: ApiClipChainId,
        parent: Option<ApiClipChainId>,
        clip_ids: Seq<ClipId>,
    ) -> Outcome<'a> {
        if (parent matches Some(parent_id) && !self.state.mapping.clips.contains_key(
            ClipId::ClipChain(parent_id),
        )) || !all_clips_known(self.state, clip_ids) {
            self.fails(FlattenError::UnknownClip)
        } else {
            let parent_clip_chain_id = match parent {
                Some(parent_id) => self.state.mapping.clips[ClipId::ClipChain(parent_id)].id,
                None => self.state.pipeline_clip_chain_stack.last(),
            };
            let linked = self.state.link_clips(clip_ids, parent_clip_chain_id);
            self.with_state(
                FlattenerState {
                    mapping: linked.mapping.add_clip_chain(
                        ClipId::ClipChain(id),
                        self.state.linked_clips(clip_ids, parent_clip_chain_id),
                        0,
                    ),
                    ..linked
                },
            ).goes_on()
        }
    }

    /// Flattens an item that is placed at `clip_and_scroll`, and does not end a
    /// frame. The cursor is past the item already.
    #[verifier::opaque]
    pub open spec fn flatten_placed_item(
        self,
        item: &'a DisplayItem,
        clip_and_scroll: ScrollNodeAndClipChain,
    ) -> Outcome<'a>
        recommends
            !item.spec_is_pop(),
    {
        let state = self.state;
        let offset = self.top().offset;
        let info = item.spec_get_layout_primitive_info(offset);
        let spatial_node_index = clip_and_scroll.spatial_node_index;
        match item.item {
            SpecificDisplayItem::Image {
                stretch_size,
                tile_spacing,
                image_key,
                image_rendering,
                alpha_type,
                color,
                draws,
            } => self.with_state(
                state.add_image(
                    clip_and_scroll,
                    info,
                    stretch_size,
                    tile_spacing,
                    None,
                    image_key,
                    image_rendering,
                    alpha_type,
                    color,
                    draws,
                    offset,
                ),
            ).goes_on(),
            SpecificDisplayItem::YuvImage {
                yuv_data,
                color_depth,
                color_space,
                image_rendering,
                draws,
            } => self.with_state(
                state.add_yuv_image(
                    clip_and_scroll,
                    info,
                    yuv_data,
                    color_depth,
                    color_space,
                    image_rendering,
                    draws,
                    offset,
                ),
            ).goes_on(),
            SpecificDisplayItem::Text {
                font_key,
                color,
                glyphs,
                glyph_options,
                draws,
            } => self.with_state(
                state.add_text(
                    clip_and_scroll,
                    offset,
                    info,
                    font_key,
                    color,
                    &glyphs,
                    glyph_options,
                    draws,
                ),
            ).goes_on(),
            SpecificDisplayItem::Rectangle { color, draws } => self.with_state(
                state.add_solid_rectangle(clip_and_scroll, info, color, draws, offset),
            ).goes_on(),
            SpecificDisplayItem::ClearRectangle { draws } => self.with_state(
                state.add_clear_rectangle(clip_and_scroll, info, draws, offset),
            ).goes_on(),
            SpecificDisplayItem::Line {
                wavy_line_thickness,
                orientation,
                color,
                style,
                sizes,
                draws,
            } => self.with_state(
                state.add_line(
                    clip_and_scroll,
                    info,
                    wavy_line_thickness,
                    orientation,
                    color,
                    style,
                    sizes,
                    draws,
                    offset,
                ),
            ).goes_on(),
            SpecificDisplayItem::Gradient {
                gradient,
                stops,
                tile_size,
                tile_spacing,
                draws,
            } => self.with_state(
                state.add_linear_gradient(
                    clip_and_scroll,
                    info,
                    linear_gradient(
                        info,
                        gradient.start_point,
                        gradient.end_point,
                        &stops,
                        gradient.extend_mode,
                        LayoutSize::Value(tile_size),
                        LayoutSize::Value(tile_spacing),
                        None,
                        draws,
                    ),
                    offset,
                ),
            ).goes_on(),
            SpecificDisplayItem::RadialGradient {
                gradient,
                stops,
                tile_size,
                tile_spacing,
                draws,
            } => self.with_state(
                state.add_flat_item(
                    clip_and_scroll,
                    info,
                    radial_gradient(
                        info,
                        gradient,
                        &stops,
                        LayoutSize::Value(tile_size),
                        LayoutSize::Value(tile_spacing),
                        None,
                        draws,
                    ),
                    offset,
                ),
            ).goes_on(),
            SpecificDisplayItem::BoxShadow(box_shadow) => self.asks(
                FlattenStep::BoxShadow(
                    BoxShadowRequest {
                        clip_and_scroll,
                        info: LayoutPrimitiveInfo {
                            rect: LayoutRect::Value(box_shadow.box_bounds).translate(offset),
                            ..info
                        },
                        box_shadow,
                        reference_frame_relative_offset: offset,
                    },
                ),
            ),
            SpecificDisplayItem::Border { border, stops, draws } => self.with_state(
                state.add_border(clip_and_scroll, info, border, &stops, draws, offset),
            ).asks(
                match border.details {
                    BorderDetails::NinePatch(_) => FlattenStep::Continue,
                    BorderDetails::Normal(normal) => FlattenStep::NormalBorder(
                        NormalBorderRequest {
                            clip_and_scroll,
                            info,
                            border: normal,
                            widths: border.widths,
                            reference_frame_relative_offset: offset,
                        },
                    ),
                },
            ),
            SpecificDisplayItem::PushStackingContext {
                stacking_context,
                filters,
            } => self.flatten_stacking_context(
                *item,
                stacking_context,
                filters@,
                spatial_node_index,
            ),
            SpecificDisplayItem::PushReferenceFrame(reference_frame) => {
                self.flatten_reference_frame(*item, reference_frame, spatial_node_index)
            },
            SpecificDisplayItem::Iframe { pipeline_id } => self.flatten_iframe(
                *item,
                pipeline_id,
                spatial_node_index,
            ),
            SpecificDisplayItem::Clip { id, image_mask, complex_clips } => self.flatten_clip(
                *item,
                id,
                ClipRegion::create_for_clip_node(
                    item.clip_rect,
                    &complex_clips,
                    image_mask,
                    offset,
                ),
            ),
            SpecificDisplayItem::ClipChain { id, parent, clip_ids } => self.flatten_clip_chain(
                id,
                parent,
                clip_ids@,
            ),
            SpecificDisplayItem::ScrollFrame {
                clip_id,
                scroll_frame_id,
                external_id,
                scroll_sensitivity,
                image_mask,
                complex_clips,
            } => self.flatten_scroll_frame(
                *item,
                clip_id,
                ClipRegion::create_for_clip_node(
                    item.clip_rect,
                    &complex_clips,
                    image_mask,
                    offset,
                ),
                scroll_frame_id,
                external_id,
                scroll_sensitivity,
                spatial_node_index,
            ),
            SpecificDisplayItem::StickyFrame {
                id,
                margins,
                vertical_offset_bounds,
                horizontal_offset_bounds,
                previously_applied_offset,
            } => self.with_state(
                state.add_sticky_frame(
                    id,
                    spatial_node_index,
                    StickyFrameInfo {
                        frame_rect: LayoutRect::Value(item.rect).translate(offset),
                        margins,
                        vertical_offset_bounds,
                        horizontal_offset_bounds,
                        previously_applied_offset,
                    },
                ),
            ).goes_on(),
            SpecificDisplayItem::PushShadow(shadow) => self.with_state(
                state.push_shadow(shadow, clip_and_scroll),
            ).goes_on(),
            SpecificDisplayItem::PopAllShadows => if state.pending_shadow_items.len() == 0 {
                self.fails(FlattenError::NoPendingShadows)
            } else {
                self.with_state(state.pop_all_shadows(offset)).goes_on()
            },
            SpecificDisplayItem::SetGradientStops => self.goes_on(),
            SpecificDisplayItem::PushCacheMarker => self.goes_on(),
            SpecificDisplayItem::PopCacheMarker => self.goes_on(),
            SpecificDisplayItem::PopStackingContext => self.goes_on(),
            SpecificDisplayItem::PopReferenceFrame => self.goes_on(),
        }
    }

    /// Flattens an item that does not end a frame. The cursor is past the item
    /// already.
    pub open spec fn flatten_item(self, item: &'a DisplayItem) -> Outcome<'a>
        recommends
            !item.spec_is_pop(),
    {
        match item_clip_and_scroll(self.state, *item, self.top().apply_pipeline_clip) {
            Ok(clip_and_scroll) => self.flatten_placed_item(item, clip_and_scroll),
            Err(error) => self.fails(error),
        }
    }

    /// Does what comes next. An error changes nothing.
    pub open spec fn step(self) -> Outcome<'a> {
        if self.frames.len() == 0 {
            self.asks(FlattenStep::Finished)
        } else {
            let top = self.top();
            if top.kind is ClosingStackingContext {
                self.asks(self.close_request())
            } else {
                let next = self.with_cursor(past(top.list@, top.cursor));
                let outcome = if at_end_of_frame(top.list@, top.cursor as int) {
                    next.leave_frame()
                } else {
                    next.flatten_item(&top.list@[top.cursor as int])
                };
                if outcome.result is Err {
                    Outcome { flattening: self, ..outcome }
                } else {
                    outcome
                }
            }
        }
    }
}

/// A display item that is refused, and a frame that cannot be left, change
/// nothing.
pub proof fn law_error_changes_nothing<'a>(before: Flattening<'a>, item: &'a DisplayItem)
    ensures
        before.flatten_item(item).result is Err ==> before.flatten_item(item).flattening == before,
        before.leave_frame().result is Err ==> before.leave_frame().flattening == before,
{
    reveal(Flattening::flatten_placed_item);
}

/// The flattening of a state and frames.
pub open spec fn flattening<'a>(
    state: FlattenerState<'a>,
    frames: Seq<Frame<'a>>,
) -> Flattening<'a> {
    Flattening { state, frames }
}

/// The outcome with a state, frames and a result.
pub open spec fn outcome<'a>(
    state: FlattenerState<'a>,
    frames: Seq<Frame<'a>>,
    result: Result<FlattenStep, FlattenError>,
) -> Outcome<'a> {
    Outcome { flattening: Flattening { state, frames }, result }
}

impl<'a> Traversal<'a> {
    /// Moves the cursor of the topmost frame.
    fn set_cursor(&mut self, cursor: usize)
        requires
            old(self)@.len() > 0,
        ensures
            final(self)@ == old(self)@.drop_last().push(Frame { cursor, ..old(self)@.last() }),
    {
        let last: usize = self.frames.len() - 1;
        self.frames[last].cursor = cursor;
        assert(self@ =~= old(self)@.drop_last().push(Frame { cursor, ..old(self)@.last() }));
    }

    /// Closes the topmost frame. A frame in the same display list goes on where
    /// the closed one ended.
    fn close_frame(&mut self)
        requires
            old(self)@.len() > 0,
        ensures
            forall|state: FlattenerState<'a>|
                #![trigger flattening(state, old(self)@)]
                flattening(state, old(self)@).close_frame() == flattening(state, final(self)@),
    {
        let frame = self.frames.pop().unwrap();
        if frame.kind != FrameKind::Iframe && self.frames.len() > 0 {
            self.set_cursor(frame.cursor);
        }
    }
}

impl<'a> DisplayListFlattener<'a> {
    /// Where an item is placed, and what clips it.
    fn get_clip_and_scroll(&self, item: &DisplayItem, apply_pipeline_clip: bool) -> (r: Result<
        ScrollNodeAndClipChain,
        FlattenError,
    >)
        ensures
            r == item_clip_and_scroll(self@, *item, apply_pipeline_clip),
    {
        let space_and_clip = item.space_and_clip;
        let spatial_node_index = match self.id_to_index_mapper.find_spatial_node(
            space_and_clip.spatial_id,
        ) {
            Some(index) => index,
            None => {
                return Err(FlattenError::UnknownSpatialNode);
            },
        };
        let clip_chain_id = if !apply_pipeline_clip && space_and_clip.clip_id.is_root() {
            ClipChainId::Unclipped
        } else if space_and_clip.clip_id.is_valid() {
            match self.id_to_index_mapper.find_clip_node(space_and_clip.clip_id) {
                Some(node) => node.id,
                None => {
                    return Err(FlattenError::UnknownClip);
                },
            }
        } else {
            ClipChainId::Invalid
        };
        Ok(ScrollNodeAndClipChain { spatial_node_index, clip_chain_id })
    }

    /// Flattens the start of a stacking context. An empty one is skipped.
    fn flatten_stacking_context(
        &mut self,
        traversal: &mut Traversal<'a>,
        item: &DisplayItem,
        stacking_context: &StackingContext,
        filters: &Vec<FilterOp>,
        spatial_node_index: SpatialNodeIndex,
    ) -> (r: Result<FlattenStep, FlattenError>)
        requires
            old(self)@.wf(),
            old(traversal)@.len() > 0,
            old(traversal)@.last().cursor <= old(traversal)@.last().list@.len(),
        ensures
            outcome(final(self)@, final(traversal)@, r) == flattening(
                old(self)@,
                old(traversal)@,
            ).flatten_stacking_context(
                *item,
                *stacking_context,
                filters@,
                spatial_node_index,
            ),
    {
        let last: usize = traversal.frames.len() - 1;
        let list = traversal.frames[last].list;
        let cursor: usize = traversal.frames[last].cursor;

        // Avoid doing unnecessary work for empty stacking contexts.
        if cursor >= list.len() {
            assert(traversal@ =~= traversal@.drop_last().push(
                Frame { cursor, ..traversal@.last() },
            ));
            return Ok(FlattenStep::Continue);
        }
        if let SpecificDisplayItem::PopStackingContext = &list[cursor].item {
            traversal.set_cursor(cursor + 1);
            return Ok(FlattenStep::Continue);
        }
        let clip_chain_id = match stacking_context.clip_id {
            Some(clip_id) => match self.id_to_index_mapper.find_clip_node(clip_id) {
                Some(node) => node.id,
                None => {
                    return Err(FlattenError::UnknownClip);
                },
            },
            None => ClipChainId::Unclipped,
        };
        let pipeline_id = traversal.frames[last].pipeline_id;
        proof {
            if self@.sc_stack.len() > 0 && self@.sc_stack.last().has_flat_items() {
                law_can_push(self@);
            }
        }
        self.push_stacking_context(
            pipeline_id,
            CompositeOps::new(filters, stacking_context.mix_blend_mode),
            stacking_context.transform_style,
            item.is_backface_visible,
            stacking_context.cache_tiles,
            spatial_node_index,
            clip_chain_id,
            stacking_context.raster_space,
        );
        let offset = traversal.frames[last].offset.copy().plus_point(item.rect.origin);
        let apply_pipeline_clip = traversal.frames[last].apply_pipeline_clip && clip_chain_id
            == ClipChainId::Unclipped;
        traversal.frames.push(
            Frame {
                kind: FrameKind::StackingContext,
                list,
                cursor,
                pipeline_id,
                offset,
                apply_pipeline_clip,
            },
        );
        Ok(FlattenStep::Continue)
    }

    /// Flattens the start of a reference frame.
    fn flatten_reference_frame(
        &mut self,
        traversal: &mut Traversal<'a>,
        item: &DisplayItem,
        reference_frame: &ReferenceFrame,
        parent_spatial_node: SpatialNodeIndex,
    ) -> (r: Result<FlattenStep, FlattenError>)
        requires
            old(traversal)@.len() > 0,
        ensures
            outcome(final(self)@, final(traversal)@, r) == flattening(
                old(self)@,
                old(traversal)@,
            ).flatten_reference_frame(*item, *reference_frame, parent_spatial_node),
    {
        let last: usize = traversal.frames.len() - 1;
        let list = traversal.frames[last].list;
        let cursor: usize = traversal.frames[last].cursor;
        let pipeline_id = traversal.frames[last].pipeline_id;
        let apply_pipeline_clip = traversal.frames[last].apply_pipeline_clip;
        let origin = traversal.frames[last].offset.copy().plus_point(item.rect.origin);
        self.push_reference_frame(
            reference_frame.id,
            Some(parent_spatial_node),
            pipeline_id,
            reference_frame.transform_style,
            reference_frame.transform,
            reference_frame.kind,
            origin,
        );
        traversal.frames.push(
            Frame {
                kind: FrameKind::ReferenceFrame,
                list,
                cursor,
                pipeline_id,
                offset: LayoutVector2D::Zero,
                apply_pipeline_clip,
            },
        );
        Ok(FlattenStep::Continue)
    }

    /// Flattens the start of an iframe. One whose pipeline is missing is
    /// skipped.
    fn flatten_iframe(
        &mut self,
        traversal: &mut Traversal<'a>,
        item: &DisplayItem,
        iframe_pipeline_id: PipelineId,
        spatial_node_index: SpatialNodeIndex,
    ) -> (r: Result<FlattenStep, FlattenError>)
        requires
            old(traversal)@.len() > 0,
            old(self)@.mapping.spatial.contains_key(item.space_and_clip.spatial_id),
        ensures
            outcome(final(self)@, final(traversal)@, r) == flattening(
                old(self)@,
                old(traversal)@,
            ).flatten_iframe(*item, iframe_pipeline_id, spatial_node_index),
    {
        broadcast use vstd::std_specs::hash::group_hash_axioms;

        let last: usize = traversal.frames.len() - 1;
        let scene = self.scene;
        let pipeline: &'a ScenePipeline = match scene.pipelines.get(&iframe_pipeline_id.key()) {
            Some(pipeline) => pipeline,
            None => {
                return Ok(FlattenStep::Continue);
            },
        };
        if self.id_to_index_mapper.find_clip_node(item.space_and_clip.clip_id).is_none() {
            return Err(FlattenError::UnknownClip);
        }
        let clip_chain_index = self.add_clip_node(
            ClipId::root(iframe_pipeline_id),
            &item.space_and_clip,
            ClipRegion::create_for_clip_node_with_local_clip(
                item.clip_rect,
                traversal.frames[last].offset.copy(),
            ),
        );
        self.pipeline_clip_chain_stack.push(clip_chain_index);
        let origin = traversal.frames[last].offset.copy().plus_point(item.rect.origin);
        self.add_pipeline_frames(
            iframe_pipeline_id,
            Some(spatial_node_index),
            origin,
            &item.rect.size,
            &pipeline.content_size,
        );
        traversal.frames.push(
            Frame {
                kind: FrameKind::Iframe,
                list: &pipeline.display_list,
                cursor: 0,
                pipeline_id: pipeline.pipeline_id,
                offset: LayoutVector2D::Zero,
                apply_pipeline_clip: true,
            },
        );
        Ok(FlattenStep::Continue)
    }

    /// Flattens a clip.
    fn flatten_clip(&mut self, item: &DisplayItem, id: ClipId, region: ClipRegion) -> (r: Result<
        FlattenStep,
        FlattenError,
    >)
        requires
            old(self)@.mapping.spatial.contains_key(item.space_and_clip.spatial_id),
        ensures
            forall|frames: Seq<Frame<'a>>|
                #![trigger flattening(old(self)@, frames)]
                flattening(old(self)@, frames).flatten_clip(*item, id, region) == outcome(
                    final(self)@,
                    frames,
                    r,
                ),
    {
        if self.id_to_index_mapper.find_clip_node(item.space_and_clip.clip_id).is_none() {
            return Err(FlattenError::UnknownClip);
        }
        self.add_clip_node(id, &item.space_and_clip, region);
        Ok(FlattenStep::Continue)
    }

    /// Flattens a scroll frame: a clip, and a positioning node.
    fn flatten_scroll_frame(
        &mut self,
        item: &DisplayItem,
        clip_id: ClipId,
        region: ClipRegion,
        scroll_frame_id: SpatialId,
        external_id: Option<ExternalScrollId>,
        scroll_sensitivity: ScrollSensitivity,
        parent_node_index: SpatialNodeIndex,
        pipeline_id: PipelineId,
    ) -> (r: Result<FlattenStep, FlattenError>)
        requires
            old(self)@.mapping.spatial.contains_key(item.space_and_clip.spatial_id),
        ensures
            forall|frames: Seq<Frame<'a>>|
                #![trigger flattening(old(self)@, frames)]
                frames.last().pipeline_id == pipeline_id ==> flattening(
                    old(self)@,
                    frames,
                ).flatten_scroll_frame(
                    *item,
                    clip_id,
                    region,
                    scroll_frame_id,
                    external_id,
                    scroll_sensitivity,
                    parent_node_index,
                ) == outcome(final(self)@, frames, r),
    {
        if self.id_to_index_mapper.find_clip_node(item.space_and_clip.clip_id).is_none() {
            return Err(FlattenError::UnknownClip);
        }
        // The clip rectangle serves as the rectangle of the frame. It is what
        // scroll extents and sticky offsets are computed from.
        let frame_rect = region.main.copy();
        self.add_clip_node(clip_id, &item.space_and_clip, region);
        self.add_scroll_frame(
            scroll_frame_id,
            parent_node_index,
            external_id,
            pipeline_id,
            frame_rect,
            &item.rect.size,
            scroll_sensitivity,
            ScrollFrameKind::Explicit,
        );
        Ok(FlattenStep::Continue)
    }

    /// Adds the nodes of a stored clip chain from `from` on, `count` of them,
    /// once more, to another chain.
    fn copy_clip_nodes(&mut self, from: ClipChainId, count: usize, parent: ClipChainId) -> (r:
        ClipChainId)
        requires
            old(self)@.wf(),
            clip_id_within(from, old(self)@.clip_nodes.len()),
            clip_chain_len(old(self)@.clip_nodes, from) >= count,
            clip_id_within(parent, old(self)@.clip_nodes.len()),
        ensures
            final(self)@ == old(self)@.copy_clip_nodes(from, count as nat, parent),
            r == old(self)@.built_clip_chain(count as nat, parent),
            final(self)@.wf(),
            clip_id_within(r, final(self)@.clip_nodes.len()),
    {
        let mut clip_chain_id: ClipChainId = parent;
        let mut source: ClipChainId = from;
        let mut rest: usize = count;
        while rest > 0
            invariant
                self@.wf(),
                clip_id_within(source, self@.clip_nodes.len()),
                clip_chain_len(self@.clip_nodes, source) >= rest,
                clip_id_within(clip_chain_id, self@.clip_nodes.len()),
                self@.copy_clip_nodes(source, rest as nat, clip_chain_id) == old(
                    self,
                )@.copy_clip_nodes(from, count as nat, parent),
                self@.built_clip_chain(rest as nat, clip_chain_id) == old(self)@.built_clip_chain(
                    count as nat,
                    parent,
                ),
            decreases rest,
        {
            let ghost before = self@;
            proof {
                lemma_fits(self);
            }
            let index: usize = match source {
                ClipChainId::Node(index) => index,
                _ => {
                    return clip_chain_id;
                },
            };
            let node = self.clip_store.get_clip_chain(index);
            let handle = node.handle;
            let local_pos = node.local_pos.copy();
            let spatial_node_index = node.spatial_node_index;
            source = node.parent_clip_chain_id;

            // Add a node with the same clip item, on top of the chain so far.
            clip_chain_id =
            self.clip_store.add_clip_chain_node(
                handle,
                local_pos,
                spatial_node_index,
                clip_chain_id,
            );
            proof {
                let added = self@.clip_nodes.last();
                lemma_add_clip_node_wf(before, self@, added);
                lemma_clip_chain_len_push(before.clip_nodes, added, source);
            }
            rest = rest - 1;
        }
        clip_chain_id
    }

    /// Flattens a clip chain.
    ///
    /// A clip of a display list can consist of several clip items, which are
    /// stored as a clip chain. The nodes of all listed clips are accumulated
    /// into one clip chain, on top of the parent. The parent, if given, is
    /// another clip chain of the display list; else it is the root clip chain of
    /// the pipeline.
    fn flatten_clip_chain(
        &mut self,
        id: ApiClipChainId,
        parent: Option<ApiClipChainId>,
        clip_ids: &Vec<ClipId>,
    ) -> (r: Result<FlattenStep, FlattenError>)
        requires
            old(self)@.wf(),
            old(self)@.pipeline_clip_chain_stack.len() > 0,
        ensures
            forall|frames: Seq<Frame<'a>>|
                #![trigger flattening(old(self)@, frames)]
                flattening(old(self)@, frames).flatten_clip_chain(id, parent, clip_ids@) == outcome(
                    final(self)@,
                    frames,
                    r,
                ),
    {
        let parent_clip_chain_id = match parent {
            Some(parent_id) => match self.id_to_index_mapper.find_clip_node(
                ClipId::ClipChain(parent_id),
            ) {
                Some(node) => {
                    assert(clip_stored(
                        self@.mapping.clips[ClipId::ClipChain(parent_id)],
                        self@.clip_nodes,
                    ));
                    node.id
                },
                None => {
                    return Err(FlattenError::UnknownClip);
                },
            },
            None => {
                let count: usize = self.pipeline_clip_chain_stack.len();
                self.pipeline_clip_chain_stack[count - 1]
            },
        };
        let mut i: usize = 0;
        while i < clip_ids.len()
            invariant
                self@ == old(self)@,
                i <= clip_ids@.len(),
                forall|j: int|
                    0 <= j < i ==> self@.mapping.clips.contains_key(#[trigger] clip_ids@[j]),
            decreases clip_ids@.len() - i,
        {
            if self.id_to_index_mapper.find_clip_node(clip_ids[i]).is_none() {
                assert(!all_clips_known(self@, clip_ids@));
                return Err(FlattenError::UnknownClip);
            }
            i = i + 1;
        }
        assert(all_clips_known(self@, clip_ids@));
        let mut clip_chain_id: ClipChainId = parent_clip_chain_id;
        i = 0;
        assert(clip_ids@.subrange(0, clip_ids@.len() as int) =~= clip_ids@);
        while i < clip_ids.len()
            invariant
                self@.wf(),
                all_clips_known(self@, clip_ids@),
                i <= clip_ids@.len(),
                clip_id_within(clip_chain_id, self@.clip_nodes.len()),
                self@.link_clips(
                    clip_ids@.subrange(i as int, clip_ids@.len() as int),
                    clip_chain_id,
                ) == old(self)@.link_clips(clip_ids@, parent_clip_chain_id),
                self@.linked_clips(
                    clip_ids@.subrange(i as int, clip_ids@.len() as int),
                    clip_chain_id,
                ) == old(self)@.linked_clips(clip_ids@, parent_clip_chain_id),
            decreases clip_ids@.len() - i,
        {
            let ghost before = self@;
            let ghost parent_before = clip_chain_id;
            let ghost rest = clip_ids@.subrange(i as int, clip_ids@.len() as int);
            assert(rest.drop_first() =~= clip_ids@.subrange(i + 1, clip_ids@.len() as int));
            assert(rest[0] == clip_ids@[i as int]);
            assert(clip_stored(self@.mapping.clips[clip_ids@[i as int]], self@.clip_nodes));
            let item_clip_node = self.id_to_index_mapper.get_clip_node(&clip_ids[i]);
            clip_chain_id =
            self.copy_clip_nodes(item_clip_node.id, item_clip_node.count, clip_chain_id);
            proof {
                lemma_copy_clip_nodes_keeps(
                    before,
                    item_clip_node.id,
                    item_clip_node.count as nat,
                    parent_before,
                );
            }
            i = i + 1;
        }
        // Map the last node to the id of the clip chain. This makes it available
        // to other clip chains.
        self.id_to_index_mapper.add_clip_chain(ClipId::ClipChain(id), clip_chain_id, 0);
        Ok(FlattenStep::Continue)
    }

    /// Flattens an item that does not end a frame. The cursor of the topmost
    /// frame is past it already.
    fn flatten_item(&mut self, traversal: &mut Traversal<'a>, item: &'a DisplayItem) -> (r: Result<
        FlattenStep,
        FlattenError,
    >)
        requires
            flattening(old(self)@, old(traversal)@).wf(),
            old(traversal)@.len() > 0,
            !item.spec_is_pop(),
        ensures
            outcome(final(self)@, final(traversal)@, r) == flattening(
                old(self)@,
                old(traversal)@,
            ).flatten_item(item),
    {
        let last: usize = traversal.frames.len() - 1;
        proof {
            lemma_contexts_open(traversal@);
            assert(frame_ok_at(traversal@, last as int));
        }
        reveal(Flattening::flatten_placed_item);
        let clip_and_scroll = match self.get_clip_and_scroll(
            item,
            traversal.frames[last].apply_pipeline_clip,
        ) {
            Ok(clip_and_scroll) => clip_and_scroll,
            Err(error) => {
                return Err(error);
            },
        };
        let spatial_node_index = clip_and_scroll.spatial_node_index;
        let pipeline_id = traversal.frames[last].pipeline_id;
        let offset = traversal.frames[last].offset.copy();
        let prim_info = item.get_layout_primitive_info(&offset);
        match &item.item {
            SpecificDisplayItem::Image {
                stretch_size,
                tile_spacing,
                image_key,
                image_rendering,
                alpha_type,
                color,
                draws,
            } => {
                self.add_image(
                    clip_and_scroll,
                    &prim_info,
                    *stretch_size,
                    *tile_spacing,
                    None,
                    *image_key,
                    *image_rendering,
                    *alpha_type,
                    *color,
                    *draws,
                    &offset,
                );
            },
            SpecificDisplayItem::YuvImage {
                yuv_data,
                color_depth,
                color_space,
                image_rendering,
                draws,
            } => {
                self.add_yuv_image(
                    clip_and_scroll,
                    &prim_info,
                    *yuv_data,
                    *color_depth,
                    *color_space,
                    *image_rendering,
                    *draws,
                    &offset,
                );
            },
            SpecificDisplayItem::Text { font_key, color, glyphs, glyph_options, draws } => {
                self.add_text(
                    clip_and_scroll,
                    &offset,
                    &prim_info,
                    font_key,
                    color,
                    glyphs,
                    *glyph_options,
                    *draws,
                );
            },
            SpecificDisplayItem::Rectangle { color, draws } => {
                self.add_solid_rectangle(clip_and_scroll, &prim_info, *color, *draws, &offset);
            },
            SpecificDisplayItem::ClearRectangle { draws } => {
                self.add_clear_rectangle(clip_and_scroll, &prim_info, *draws, &offset);
            },
            SpecificDisplayItem::Line {
                wavy_line_thickness,
                orientation,
                color,
                style,
                sizes,
                draws,
            } => {
                self.add_line(
                    clip_and_scroll,
                    &prim_info,
                    *wavy_line_thickness,
                    *orientation,
                    *color,
                    *style,
                    *sizes,
                    *draws,
                    &offset,
                );
            },
            SpecificDisplayItem::Gradient { gradient, stops, tile_size, tile_spacing, draws } => {
                let prim = self.create_linear_gradient_prim(
                    &prim_info,
                    gradient.start_point,
                    gradient.end_point,
                    stops,
                    gradient.extend_mode,
                    LayoutSize::Value(*tile_size),
                    LayoutSize::Value(*tile_spacing),
                    None,
                    *draws,
                );
                self.add_linear_gradient(clip_and_scroll, &prim_info, prim, &offset);
            },
            SpecificDisplayItem::RadialGradient {
                gradient,
                stops,
                tile_size,
                tile_spacing,
                draws,
            } => {
                let prim = self.create_given_radial_gradient_prim(
                    &prim_info,
                    gradient,
                    stops,
                    LayoutSize::Value(*tile_size),
                    LayoutSize::Value(*tile_spacing),
                    None,
                    *draws,
                );
                self.add_nonshadowable_primitive(
                    clip_and_scroll,
                    &prim_info,
                    Vec::new(),
                    prim,
                    &offset,
                );
            },
            SpecificDisplayItem::BoxShadow(box_shadow) => {
                let bounds = LayoutRect::Value(box_shadow.box_bounds).translate(offset.copy());
                return Ok(
                    FlattenStep::BoxShadow(
                        BoxShadowRequest {
                            clip_and_scroll,
                            info: LayoutPrimitiveInfo {
                                rect: bounds,
                                clip_rect: prim_info.clip_rect,
                                is_backface_visible: prim_info.is_backface_visible,
                                tag: prim_info.tag,
                            },
                            box_shadow: *box_shadow,
                            reference_frame_relative_offset: offset,
                        },
                    ),
                );
            },
            SpecificDisplayItem::Border { border, stops, draws } => {
                let request = self.add_border(
                    clip_and_scroll,
                    &prim_info,
                    border,
                    stops,
                    *draws,
                    &offset,
                );
                if let Some(request) = request {
                    return Ok(FlattenStep::NormalBorder(request));
                }
            },
            SpecificDisplayItem::PushStackingContext { stacking_context, filters } => {
                return self.flatten_stacking_context(
                    traversal,
                    item,
                    stacking_context,
                    filters,
                    spatial_node_index,
                );
            },
            SpecificDisplayItem::PushReferenceFrame(reference_frame) => {
                return self.flatten_reference_frame(
                    traversal,
                    item,
                    reference_frame,
                    spatial_node_index,
                );
            },
            SpecificDisplayItem::Iframe { pipeline_id } => {
                return self.flatten_iframe(traversal, item, *pipeline_id, spatial_node_index);
            },
            SpecificDisplayItem::Clip { id, image_mask, complex_clips } => {
                let region = ClipRegion::create_for_clip_node(
                    item.clip_rect,
                    complex_clips,
                    *image_mask,
                    offset,
                );
                return self.flatten_clip(item, *id, region);
            },
            SpecificDisplayItem::ClipChain { id, parent, clip_ids } => {
                return self.flatten_clip_chain(*id, *parent, clip_ids);
            },
            SpecificDisplayItem::ScrollFrame {
                clip_id,
                scroll_frame_id,
                external_id,
                scroll_sensitivity,
                image_mask,
                complex_clips,
            } => {
                let region = ClipRegion::create_for_clip_node(
                    item.clip_rect,
                    complex_clips,
                    *image_mask,
                    offset,
                );
                return self.flatten_scroll_frame(
                    item,
                    *clip_id,
                    region,
                    *scroll_frame_id,
                    *external_id,
                    *scroll_sensitivity,
                    spatial_node_index,
                    pipeline_id,
                );
            },
            SpecificDisplayItem::StickyFrame {
                id,
                margins,
                vertical_offset_bounds,
                horizontal_offset_bounds,
                previously_applied_offset,
            } => {
                self.add_sticky_frame(
                    *id,
                    spatial_node_index,
                    StickyFrameInfo {
                        frame_rect: LayoutRect::Value(item.rect).translate(offset),
                        margins: *margins,
                        vertical_offset_bounds: *vertical_offset_bounds,
                        horizontal_offset_bounds: *horizontal_offset_bounds,
                        previously_applied_offset: *previously_applied_offset,
                    },
                );
            },
            SpecificDisplayItem::PushShadow(shadow) => {
                self.push_shadow(*shadow, clip_and_scroll);
            },
            SpecificDisplayItem::PopAllShadows => {
                if self.pending_shadow_items.len() == 0 {
                    return Err(FlattenError::NoPendingShadows);
                }
                self.pop_all_shadows(&offset);
            },
            // These are for the parser of display lists.
            SpecificDisplayItem::SetGradientStops => {},
            SpecificDisplayItem::PushCacheMarker => {},
            SpecificDisplayItem::PopCacheMarker => {},
            // These end a frame, and do not get here.
            SpecificDisplayItem::PopStackingContext => {
                assert(false);
            },
            SpecificDisplayItem::PopReferenceFrame => {
                assert(false);
            },
        }
        Ok(FlattenStep::Continue)
    }

    /// Whether the topmost stacking context is a no-op inside the one below it.
    fn top_is_redundant(&self, node_is_identity: bool) -> (r: bool)
        requires
            self@.sc_stack.len() > 0,
        ensures
            r == self@.top_is_redundant(node_is_identity),
    {
        let count: usize = self.sc_stack.len();
        count > 1 && self.sc_stack[count - 1].is_redundant(
            &self.sc_stack[count - 2],
            node_is_identity,
        )
    }

    /// Leaves the topmost frame, all items of which are done.
    fn leave_frame(&mut self, traversal: &mut Traversal<'a>) -> (r: Result<
        FlattenStep,
        FlattenError,
    >)
        requires
            flattening(old(self)@, old(traversal)@).wf(),
            old(traversal)@.len() > 0,
        ensures
            outcome(final(self)@, final(traversal)@, r) == flattening(
                old(self)@,
                old(traversal)@,
            ).leave_frame(),
    {
        let last: usize = traversal.frames.len() - 1;
        proof {
            lemma_contexts_open(traversal@);
            assert(frame_ok_at(traversal@, last as int));
        }
        match traversal.frames[last].kind {
            FrameKind::Root => {
                if self.pending_shadow_items.len() > 0 {
                    return Err(FlattenError::UnpoppedShadows);
                }
                proof {
                    law_can_pop(self@, false);
                }
                self.pop_stacking_context(false);
                let ghost frames = traversal@;
                traversal.close_frame();
                assert(flattening(self@, frames).close_frame() == flattening(self@, traversal@));
                Ok(FlattenStep::Finished)
            },
            FrameKind::StackingContext => {
                traversal.frames[last].kind = FrameKind::ClosingStackingContext;
                assert(traversal@ =~= old(traversal)@.drop_last().push(
                    Frame {
                        kind: FrameKind::ClosingStackingContext,
                        ..old(traversal)@.last()
                    },
                ));
                Ok(self.ask_to_close())
            },
            FrameKind::ClosingStackingContext => Ok(self.ask_to_close()),
            FrameKind::ReferenceFrame => {
                traversal.close_frame();
                Ok(FlattenStep::Continue)
            },
            FrameKind::Iframe => {
                self.pipeline_clip_chain_stack.pop();
                let ghost frames = traversal@;
                traversal.close_frame();
                assert(flattening(self@, frames).close_frame() == flattening(self@, traversal@));
                assert(self@.pipeline_clip_chain_stack =~= old(
                    self,
                )@.pipeline_clip_chain_stack.drop_last());
                Ok(FlattenStep::Continue)
            },
        }
    }

    /// The step that asks how the topmost stacking context is to be ended.
    fn ask_to_close(&self) -> (r: FlattenStep)
        requires
            self@.sc_stack.len() > 0,
        ensures
            forall|frames: Seq<Frame<'a>>|
                #![trigger flattening(self@, frames)]
                flattening(self@, frames).close_request() == r,
    {
        let count: usize = self.sc_stack.len();
        FlattenStep::CloseStackingContext {
            spatial_node_index: self.sc_stack[count - 1].spatial_node_index,
        }
    }

    /// Does what comes next: flattens an item, or leaves a frame all items of
    /// which are done. What it returns says what the embedder has to do before
    /// the next call. An error changes nothing.
    pub fn flatten_items(&mut self, traversal: &mut Traversal<'a>) -> (r: Result<
        FlattenStep,
        FlattenError,
    >)
        requires
            flattening(old(self)@, old(traversal)@).wf(),
        ensures
            outcome(final(self)@, final(traversal)@, r) == flattening(
                old(self)@,
                old(traversal)@,
            ).step(),
            flattening(final(self)@, final(traversal)@).wf(),
            r matches Ok(FlattenStep::CloseStackingContext { .. }) ==> {
                &&& final(traversal)@.len() > 0
                &&& final(traversal)@.last().kind is ClosingStackingContext
            },
            old(self)@.grows_to(final(self)@),
    {
        proof {
            lemma_fits(self);
        }
        let r = self.do_step(traversal);
        proof {
            lemma_fits(self);
            law_step_wf(flattening(old(self)@, old(traversal)@));
            law_requests_are_sound(flattening(old(self)@, old(traversal)@));
            law_step_grows(flattening(old(self)@, old(traversal)@));
        }
        r
    }

    fn do_step(&mut self, traversal: &mut Traversal<'a>) -> (r: Result<FlattenStep, FlattenError>)
        requires
            flattening(old(self)@, old(traversal)@).wf(),
        ensures
            outcome(final(self)@, final(traversal)@, r) == flattening(
                old(self)@,
                old(traversal)@,
            ).step(),
    {
        if traversal.frames.len() == 0 {
            return Ok(FlattenStep::Finished);
        }
        let last: usize = traversal.frames.len() - 1;
        proof {
            lemma_contexts_open(traversal@);
            assert(frame_ok_at(traversal@, last as int));
        }
        if traversal.frames[last].kind == FrameKind::ClosingStackingContext {
            let ghost now = flattening(self@, traversal@);
            return Ok(self.ask_to_close());
        }
        let list = traversal.frames[last].list;
        let cursor: usize = traversal.frames[last].cursor;
        let ghost frames = traversal@;
        let at_end = cursor >= list.len() || list[cursor].is_pop();
        let next: usize = if cursor < list.len() {
            cursor + 1
        } else {
            cursor
        };
        traversal.set_cursor(next);
        proof {
            lemma_with_cursor_wf(flattening(old(self)@, frames), next);
        }
        let r = if at_end {
            self.leave_frame(traversal)
        } else {
            self.flatten_item(traversal, &list[cursor])
        };
        if r.is_err() {
            proof {
                law_error_changes_nothing(
                    flattening(old(self)@, frames).with_cursor(next),
                    &list@[cursor as int],
                );
            }
            traversal.set_cursor(cursor);
            assert(traversal@ =~= frames);
        }
        r
    }

    /// Ends the topmost stacking context, all items of which are done.
    /// `node_is_identity` says whether its positioning node leaves everything
    /// where it is. What it returns says what the embedder has to do before the
    /// next call. An error changes nothing.
    pub fn end_stacking_context(
        &mut self,
        traversal: &mut Traversal<'a>,
        node_is_identity: bool,
    ) -> (r: Result<FlattenStep, FlattenError>)
        requires
            flattening(old(self)@, old(traversal)@).wf(),
            old(traversal)@.len() > 0,
            old(traversal)@.last().kind is ClosingStackingContext,
        ensures
            outcome(final(self)@, final(traversal)@, r) == flattening(
                old(self)@,
                old(traversal)@,
            ).end_stacking_context(node_is_identity),
            flattening(final(self)@, final(traversal)@).wf(),
            old(self)@.grows_to(final(self)@),
    {
        proof {
            lemma_contexts_open(traversal@);
            law_end_stacking_context_grows(flattening(self@, traversal@), node_is_identity);
        }
        let redundant = self.top_is_redundant(node_is_identity);
        if self.pending_shadow_items.len() > 0 && !redundant {
            return Err(FlattenError::UnpoppedShadows);
        }
        let count: usize = self.sc_stack.len();
        let has_filters = self.sc_stack[count - 1].composite_ops.filters.len() > 0;
        let from = PictureIndex { index: self.prim_store.pictures.len() };
        proof {
            law_can_pop(self@, node_is_identity);
        }
        self.pop_stacking_context(node_is_identity);
        let ghost frames = traversal@;
        traversal.close_frame();
        proof {
            assert(flattening(self@, frames).close_frame() == flattening(self@, traversal@));
            lemma_fits(self);
            law_end_stacking_context_wf(
                flattening(old(self)@, old(traversal)@),
                node_is_identity,
            );
        }
        if !redundant && has_filters {
            Ok(FlattenStep::OptimizePictures { from })
        } else {
            Ok(FlattenStep::Continue)
        }
    }

    /// Takes in what the embedder found when it tried to collapse pictures: how
    /// a picture is drawn now. The picture is not marked any more.
    pub fn picture_optimized(
        &mut self,
        pic_index: PictureIndex,
        composite_mode: Option<PictureCompositeMode>,
    )
        requires
            pic_index.index < old(self)@.prim_store.pictures.len(),
        ensures
            final(self)@ == old(self)@.picture_optimized(pic_index, composite_mode),
    {
        let i: usize = pic_index.index;
        self.prim_store.pictures[i].requested_composite_mode = composite_mode;
        self.prim_store.pictures[i].optimize = false;
        assert(self@.prim_store.pictures =~= old(self)@.picture_optimized(
            pic_index,
            composite_mode,
        ).prim_store.pictures);
    }
}

} // verus!
