//! What a reader of a display list can rely on, item by item: each law here speaks
//! of the fields of an item, and of the fields of what comes of it.
use vstd::prelude::*;

use crate::clip_store::{ClipItemKey, ClipMode, ComplexClipRegion, ImageMask};
use crate::composed::{
    law_cached_context_ends, law_context_begins, law_context_ends, law_empty_context_skipped,
    law_idle_context_ends, preserves_3d, top_does_nothing, top_is_cached,
};
use crate::display_list::{
    BorderDetails, DisplayItem, FontInstanceKey, Gradient, NinePatchBorderSource, ReferenceFrame,
    SpecificDisplayItem, StackingContext,
};
use crate::drawn::{
    any_stop_opaque, font_number, is_positive, is_zero, law_clear_rectangle_drawn,
    law_dotted_line_drawn, law_float_comparison, law_gradient_border_drawn, law_gradient_drawn,
    law_image_border_drawn, law_image_drawn, law_interleaved_image_drawn, law_line_drawn,
    law_masked_line_drawn, law_normal_border_requested, law_nv12_image_drawn,
    law_planar_image_drawn, law_radial_border_drawn, law_radial_gradient_drawn,
    law_rectangle_drawn, law_text_drawn, law_text_without_font, law_transparent_border,
    law_transparent_gradient, law_transparent_rectangle_hit,
};
use crate::effects::{draws_primitive, listed_next};
use crate::hit_test::hit_order;
use crate::ids::{
    ClipChainId, ClipId, ExternalScrollId, PipelineId, RequestIndex, ScrollNodeAndClipChain,
    SpatialId, SpatialNodeIndex,
};
use crate::layout::{
    ColorF, F32, LayoutPoint, LayoutRect, LayoutSize, LayoutVector2D, SizeF, VectorF,
};
use crate::outcomes::law_item_fails;
use crate::picture::{
    BlitReason, FilterOp, MixBlendMode, Picture3DContext, PictureCompositeKey,
    PictureCompositeMode, PrimitiveInstanceKind, RasterSpace,
};
use crate::placed::{
    law_clip_added, law_iframe_placed, law_missing_iframe_skipped, law_reference_frame_placed,
    law_scroll_frame_placed, law_sticky_frame_placed, main_shape, pipeline_number, shapes,
};
use crate::primitives::{
    BaseFontInstance, GlyphInstance, GlyphOptions, GradientStop, InternRequest, ItemTag,
    LayoutPrimitiveInfo, NinePatchDescriptor, Primitive, PrimitiveKeyKind, YuvData,
};
use crate::shaded::{lemma_makes_shown, waiting_among};
use crate::shadows::{PendingShadow, ShadowItem};
use crate::spatial_tree::{
    ScrollFrameKind, ScrollSensitivity, SpatialNodeType, StickyMargins, StickyOffsetBounds,
};
use crate::state::FlattenerState;
use crate::stepping::lemma_contexts_open;
use crate::traversal::{item_clip_and_scroll, Flattening};

verus! {

/// An item over which a step succeeds is at a known place.
proof fn lemma_place<'a>(before: Flattening<'a>, item: DisplayItem) -> (
    place: ScrollNodeAndClipChain)
    requires
        before.frames.len() > 0,
        !(before.frames.last().kind is ClosingStackingContext),
        before.frames.last().cursor < before.frames.last().list@.len(),
        before.frames.last().list@[before.frames.last().cursor as int] == item,
        before.step().result is Ok,
        !(item.item is PopStackingContext || item.item is PopReferenceFrame),
        before.state.sc_stack.len() > 0,
    ensures
        listed_next(
            before,
            item,
            place,
            item.spec_get_layout_primitive_info(before.frames.last().offset),
        ),
{
    item_clip_and_scroll(before.state, item, before.frames.last().apply_pipeline_clip)->Ok_0
}

/// Whether a step draws nothing, or draws the primitive that it interns last.
spec fn draws_at_most<'a>(
    before: Flattening<'a>,
    place: ScrollNodeAndClipChain,
    info: LayoutPrimitiveInfo,
) -> bool {
    let after = before.step().flattening.state;
    ||| after.sc_stack == before.state.sc_stack
    ||| after.requests.last() matches InternRequest::Primitive { prim, .. } && draws_primitive(
        before.state,
        after,
        place,
        info,
        prim,
        before.frames.last().offset,
    )
}

proof fn lemma_shape_effect<'a>(
    before: Flattening<'a>,
    item: DisplayItem,
    place: ScrollNodeAndClipChain,
    info: LayoutPrimitiveInfo,
)
    requires
        listed_next(before, item, place, info),
        item.item is Rectangle || item.item is ClearRectangle || item.item is Text || item.item
            is YuvImage,
        before.state.pending_shadow_items.len() == 0,
    ensures
        draws_at_most(before, place, info),
{
    match item.item {
        SpecificDisplayItem::Rectangle { color, draws } => {
            if is_zero(color.a) {
                law_transparent_rectangle_hit(before, item, place, info, color, draws);
            } else {
                law_rectangle_drawn(before, item, place, info, color, draws);
            }
        },
        SpecificDisplayItem::ClearRectangle { draws } => {
            law_clear_rectangle_drawn(before, item, place, info, draws);
        },
        SpecificDisplayItem::Text { font_key, color, glyphs, glyph_options, draws } => {
            let fonts = before.state.font_instances@;
            let number = font_number(font_key);
            if fonts.contains_key(number) && fonts[number].size > 0 {
                law_text_drawn(
                    before,
                    item,
                    place,
                    info,
                    font_key,
                    color,
                    &glyphs,
                    glyph_options,
                    draws,
                    &fonts[number],
                );
            } else {
                law_text_without_font(
                    before,
                    item,
                    place,
                    info,
                    font_key,
                    color,
                    &glyphs,
                    glyph_options,
                    draws,
                );
            }
        },
        SpecificDisplayItem::YuvImage {
            yuv_data,
            color_depth,
            color_space,
            image_rendering,
            draws,
        } => {
            match yuv_data {
                YuvData::NV12(a, b) => {
                    law_nv12_image_drawn(
                        before,
                        item,
                        place,
                        info,
                        a,
                        b,
                        color_depth,
                        color_space,
                        image_rendering,
                        draws,
                    );
                },
                YuvData::PlanarYCbCr(a, b, c) => {
                    law_planar_image_drawn(
                        before,
                        item,
                        place,
                        info,
                        a,
                        b,
                        c,
                        color_depth,
                        color_space,
                        image_rendering,
                        draws,
                    );
                },
                YuvData::InterleavedYCbCr(a) => {
                    law_interleaved_image_drawn(
                        before,
                        item,
                        place,
                        info,
                        a,
                        color_depth,
                        color_space,
                        image_rendering,
                        draws,
                    );
                },
            }
        },
        _ => {},
    }
}

proof fn lemma_gradient_effect<'a>(
    before: Flattening<'a>,
    item: DisplayItem,
    place: ScrollNodeAndClipChain,
    info: LayoutPrimitiveInfo,
)
    requires
        listed_next(before, item, place, info),
        item.item is Gradient || item.item is RadialGradient || item.item is Border,
        before.state.pending_shadow_items.len() == 0,
    ensures
        draws_at_most(before, place, info),
{
    match item.item {
        SpecificDisplayItem::Gradient { gradient, stops, tile_size, tile_spacing, draws } => {
            if any_stop_opaque(stops@) {
                law_gradient_drawn(
                    before,
                    item,
                    place,
                    info,
                    gradient,
                    &stops,
                    tile_size,
                    tile_spacing,
                    draws,
                );
            } else {
                law_transparent_gradient(
                    before,
                    item,
                    place,
                    info,
                    gradient,
                    &stops,
                    tile_size,
                    tile_spacing,
                    draws,
                );
            }
        },
        SpecificDisplayItem::RadialGradient {
            gradient,
            stops,
            tile_size,
            tile_spacing,
            draws,
        } => {
            law_radial_gradient_drawn(
                before,
                item,
                place,
                info,
                gradient,
                &stops,
                tile_size,
                tile_spacing,
                draws,
            );
        },
        SpecificDisplayItem::Border { border, stops, draws } => {
            let widths = border.widths;
            match border.details {
                BorderDetails::Normal(normal) => {
                    law_normal_border_requested(
                        before,
                        item,
                        place,
                        info,
                        normal,
                        widths,
                        &stops,
                        draws,
                    );
                },
                BorderDetails::NinePatch(patch) => {
                    let cut = NinePatchDescriptor {
                        width: patch.width,
                        height: patch.height,
                        slice: patch.slice,
                        fill: patch.fill,
                        repeat_horizontal: patch.repeat_horizontal,
                        repeat_vertical: patch.repeat_vertical,
                        outset: patch.outset,
                        widths,
                    };
                    match patch.source {
                        NinePatchBorderSource::Image(key) => {
                            law_image_border_drawn(
                                before,
                                item,
                                place,
                                info,
                                patch,
                                widths,
                                cut,
                                &stops,
                                draws,
                                key,
                            );
                        },
                        NinePatchBorderSource::Gradient(gradient) => {
                            if any_stop_opaque(stops@) {
                                law_gradient_border_drawn(
                                    before,
                                    item,
                                    place,
                                    info,
                                    patch,
                                    widths,
                                    cut,
                                    &stops,
                                    draws,
                                    gradient,
                                );
                            } else {
                                law_transparent_border(
                                    before,
                                    item,
                                    place,
                                    info,
                                    patch,
                                    widths,
                                    &stops,
                                    draws,
                                );
                            }
                        },
                        NinePatchBorderSource::RadialGradient(gradient) => {
                            law_radial_border_drawn(
                                before,
                                item,
                                place,
                                info,
                                patch,
                                widths,
                                cut,
                                &stops,
                                draws,
                                gradient,
                            );
                        },
                    }
                },
            }
        },
        _ => {},
    }
}

/// A rectangle, a text, a YUV image, a gradient or a border, if it is drawn, is drawn
/// last, at the node and under the clip that it is listed with, in its rectangle and
/// clipped to its clip rectangle, both moved by the offset of the frame.
pub proof fn law_shape_drawn_where_listed<'a>(before: Flattening<'a>, item: DisplayItem)
    requires
        before.frames.len() > 0,
        !(before.frames.last().kind is ClosingStackingContext),
        before.frames.last().cursor < before.frames.last().list@.len(),
        before.frames.last().list@[before.frames.last().cursor as int] == item,
        before.step().result is Ok,
        item.item is Rectangle || item.item is ClearRectangle || item.item is Text || item.item
            is YuvImage || item.item is Gradient || item.item is RadialGradient || item.item
            is Border,
        before.state.sc_stack.len() > 0,
        before.state.pending_shadow_items.len() == 0,
        before.step().flattening.state.sc_stack != before.state.sc_stack,
    ensures
        ({
            let top = before.frames.last();
            let after = before.step().flattening.state;
            let drawn = after.sc_stack.last().primitives;
            let instance = drawn.last();
            &&& drawn == before.state.sc_stack.last().primitives.push(instance)
            &&& instance.spatial_node_index == before.state.mapping.spatial[
                item.space_and_clip.spatial_id
            ]
            &&& match item.space_and_clip.clip_id {
                ClipId::Clip(number, _) => if number == 0 && !top.apply_pipeline_clip {
                    instance.clip_chain_id == ClipChainId::Unclipped
                } else if number == u64::MAX {
                    instance.clip_chain_id == ClipChainId::Invalid
                } else {
                    instance.clip_chain_id == before.state.mapping.clips[
                        item.space_and_clip.clip_id
                    ].id
                },
                ClipId::ClipChain(_) => instance.clip_chain_id == before.state.mapping.clips[
                    item.space_and_clip.clip_id
                ].id,
            }
            &&& after.requests.len() == before.state.requests.len() + 1
            &&& after.prim_store.records.len() == before.state.prim_store.records.len() + 1
            &&& after.prim_store.records.last().reference_frame_relative_offset == top.offset
            &&& instance.kind == (PrimitiveInstanceKind::Primitive {
                data_handle: RequestIndex { index: before.state.requests.len() as usize },
                record: before.state.prim_store.records.len() as usize,
            })
            &&& after.prim_store.records.last().data_handle == (RequestIndex {
                index: before.state.requests.len() as usize,
            })
            &&& after.requests.last() matches InternRequest::Primitive { info, data, .. } && {
                &&& instance.prim_origin == LayoutPoint::OriginOf(Box::new(info.rect))
                &&& instance.local_clip_rect == info.clip_rect
                &&& data.prim_size == LayoutSize::OfRect(Box::new(info.rect))
                &&& data.is_backface_visible == item.is_backface_visible
                &&& info.is_backface_visible == item.is_backface_visible
                &&& info.tag == item.tag
                &&& info.rect == LayoutRect::Translated(
                    Box::new(LayoutRect::Value(item.rect)),
                    Box::new(top.offset),
                )
                &&& info.clip_rect == LayoutRect::Translated(
                    Box::new(LayoutRect::Value(item.clip_rect)),
                    Box::new(top.offset),
                )
            }
        }),
{
    let place = lemma_place(before, item);
    let info = item.spec_get_layout_primitive_info(before.frames.last().offset);
    if item.item is Border || item.item is Gradient || item.item is RadialGradient {
        lemma_gradient_effect(before, item, place, info);
    } else {
        lemma_shape_effect(before, item, place, info);
    }
}

/// A line, if it is drawn, is drawn last, at the node and under the clip that it is
/// listed with, in its rectangle, moved by the offset of the frame. It is clipped to
/// its clip rectangle, or to the part of it that meets some rectangle at its corner.
pub proof fn law_line_drawn_where_listed<'a>(before: Flattening<'a>, item: DisplayItem)
    requires
        before.frames.len() > 0,
        !(before.frames.last().kind is ClosingStackingContext),
        before.frames.last().cursor < before.frames.last().list@.len(),
        before.frames.last().list@[before.frames.last().cursor as int] == item,
        before.step().result is Ok,
        item.item is Line,
        before.state.sc_stack.len() > 0,
        before.state.pending_shadow_items.len() == 0,
        before.step().flattening.state.sc_stack != before.state.sc_stack,
    ensures
        ({
            let top = before.frames.last();
            let after = before.step().flattening.state;
            let drawn = after.sc_stack.last().primitives;
            let instance = drawn.last();
            &&& drawn == before.state.sc_stack.last().primitives.push(instance)
            &&& instance.spatial_node_index == before.state.mapping.spatial[
                item.space_and_clip.spatial_id
            ]
            &&& match item.space_and_clip.clip_id {
                ClipId::Clip(number, _) => if number == 0 && !top.apply_pipeline_clip {
                    instance.clip_chain_id == ClipChainId::Unclipped
                } else if number == u64::MAX {
                    instance.clip_chain_id == ClipChainId::Invalid
                } else {
                    instance.clip_chain_id == before.state.mapping.clips[
                        item.space_and_clip.clip_id
                    ].id
                },
                ClipId::ClipChain(_) => instance.clip_chain_id == before.state.mapping.clips[
                    item.space_and_clip.clip_id
                ].id,
            }
            &&& after.requests.len() == before.state.requests.len() + 1
            &&& after.prim_store.records.len() == before.state.prim_store.records.len() + 1
            &&& after.prim_store.records.last().reference_frame_relative_offset == top.offset
            &&& instance.kind == (PrimitiveInstanceKind::Primitive {
                data_handle: RequestIndex { index: before.state.requests.len() as usize },
                record: before.state.prim_store.records.len() as usize,
            })
            &&& after.prim_store.records.last().data_handle == (RequestIndex {
                index: before.state.requests.len() as usize,
            })
            &&& after.requests.last() matches InternRequest::Primitive { info, data, .. } && {
                &&& instance.prim_origin == LayoutPoint::OriginOf(Box::new(info.rect))
                &&& instance.local_clip_rect == info.clip_rect
                &&& data.prim_size == LayoutSize::OfRect(Box::new(info.rect))
                &&& data.is_backface_visible == item.is_backface_visible
                &&& info.is_backface_visible == item.is_backface_visible
                &&& info.tag == item.tag
                &&& info.rect == LayoutRect::Translated(
                    Box::new(LayoutRect::Value(item.rect)),
                    Box::new(top.offset),
                )
                &&& info.clip_rect == LayoutRect::Translated(
                    Box::new(LayoutRect::Value(item.clip_rect)),
                    Box::new(top.offset),
                ) || (info.clip_rect matches LayoutRect::IntersectionOrZero(dots, clip) && *clip
                    == LayoutRect::Translated(
                    Box::new(LayoutRect::Value(item.clip_rect)),
                    Box::new(top.offset),
                ) && (*dots matches LayoutRect::New(start, _) && *start == LayoutPoint::OriginOf(
                    Box::new(info.rect),
                )))
            }
        }),
{
    let place = lemma_place(before, item);
    let info = item.spec_get_layout_primitive_info(before.frames.last().offset);
    if let SpecificDisplayItem::Line {
        wavy_line_thickness,
        orientation,
        color,
        style,
        sizes,
        draws,
    } = item.item {
        match sizes {
            None => {
                law_line_drawn(
                    before,
                    item,
                    place,
                    info,
                    wavy_line_thickness,
                    orientation,
                    color,
                    style,
                    draws,
                );
            },
            Some((along, across)) => {
                if style is Dotted {
                    law_dotted_line_drawn(
                        before,
                        item,
                        place,
                        info,
                        wavy_line_thickness,
                        orientation,
                        color,
                        style,
                        along,
                        across,
                        draws,
                    );
                } else {
                    law_masked_line_drawn(
                        before,
                        item,
                        place,
                        info,
                        wavy_line_thickness,
                        orientation,
                        color,
                        style,
                        along,
                        across,
                        draws,
                    );
                }
            },
        }
    }
}

/// An image, if it is drawn, is drawn last, at the node and under the clip that it is
/// listed with. Its rectangle is what is left of the listed one, moved by the offset
/// of the frame, when its repetition is simplified; and it is clipped to its clip
/// rectangle, moved by that offset.
pub proof fn law_image_drawn_where_listed<'a>(before: Flattening<'a>, item: DisplayItem)
    requires
        before.frames.len() > 0,
        !(before.frames.last().kind is ClosingStackingContext),
        before.frames.last().cursor < before.frames.last().list@.len(),
        before.frames.last().list@[before.frames.last().cursor as int] == item,
        before.step().result is Ok,
        item.item is Image,
        before.state.sc_stack.len() > 0,
        before.state.pending_shadow_items.len() == 0,
        before.step().flattening.state.sc_stack != before.state.sc_stack,
    ensures
        ({
            let top = before.frames.last();
            let after = before.step().flattening.state;
            let drawn = after.sc_stack.last().primitives;
            let instance = drawn.last();
            &&& drawn == before.state.sc_stack.last().primitives.push(instance)
            &&& instance.spatial_node_index == before.state.mapping.spatial[
                item.space_and_clip.spatial_id
            ]
            &&& match item.space_and_clip.clip_id {
                ClipId::Clip(number, _) => if number == 0 && !top.apply_pipeline_clip {
                    instance.clip_chain_id == ClipChainId::Unclipped
                } else if number == u64::MAX {
                    instance.clip_chain_id == ClipChainId::Invalid
                } else {
                    instance.clip_chain_id == before.state.mapping.clips[
                        item.space_and_clip.clip_id
                    ].id
                },
                ClipId::ClipChain(_) => instance.clip_chain_id == before.state.mapping.clips[
                    item.space_and_clip.clip_id
                ].id,
            }
            &&& after.requests.len() == before.state.requests.len() + 1
            &&& after.prim_store.records.len() == before.state.prim_store.records.len() + 1
            &&& after.prim_store.records.last().reference_frame_relative_offset == top.offset
            &&& instance.kind == (PrimitiveInstanceKind::Primitive {
                data_handle: RequestIndex { index: before.state.requests.len() as usize },
                record: before.state.prim_store.records.len() as usize,
            })
            &&& after.prim_store.records.last().data_handle == (RequestIndex {
                index: before.state.requests.len() as usize,
            })
            &&& after.requests.last() matches InternRequest::Primitive { info, data, .. } && {
                &&& instance.prim_origin == LayoutPoint::OriginOf(Box::new(info.rect))
                &&& instance.local_clip_rect == info.clip_rect
                &&& data.prim_size == LayoutSize::OfRect(Box::new(info.rect))
                &&& data.is_backface_visible == item.is_backface_visible
                &&& info.is_backface_visible == item.is_backface_visible
                &&& info.tag == item.tag
                &&& info.rect matches LayoutRect::Simplified(tiling) && tiling.rect
                    == LayoutRect::Translated(
                    Box::new(LayoutRect::Value(item.rect)),
                    Box::new(top.offset),
                )
                &&& info.clip_rect == LayoutRect::Translated(
                    Box::new(LayoutRect::Value(item.clip_rect)),
                    Box::new(top.offset),
                )
            }
        }),
{
    let place = lemma_place(before, item);
    let info = item.spec_get_layout_primitive_info(before.frames.last().offset);
    if let SpecificDisplayItem::Image {
        stretch_size,
        tile_spacing,
        image_key,
        image_rendering,
        alpha_type,
        color,
        draws,
    } = item.item {
        law_image_drawn(
            before,
            item,
            place,
            info,
            stretch_size,
            tile_spacing,
            image_key,
            image_rendering,
            alpha_type,
            color,
            draws,
        );
    }
}

/// The text run of a text item, whether it is drawn or waits for shadows to end, has
/// a font of the colour of the item, component by component, and of the size of the
/// registered font; and it has the glyphs of the item.
pub proof fn law_text_keeps_its_colour<'a>(
    before: Flattening<'a>,
    item: DisplayItem,
    font_key: FontInstanceKey,
    color: ColorF,
    glyphs: &'a Vec<GlyphInstance>,
    glyph_options: Option<GlyphOptions>,
    font: &'a BaseFontInstance,
)
    requires
        before.frames.len() > 0,
        !(before.frames.last().kind is ClosingStackingContext),
        before.frames.last().cursor < before.frames.last().list@.len(),
        before.frames.last().list@[before.frames.last().cursor as int] == item,
        before.step().result is Ok,
        before.state.sc_stack.len() > 0,
        item.item == (SpecificDisplayItem::Text {
            font_key,
            color,
            glyphs: *glyphs,
            glyph_options,
            draws: true,
        }),
        before.state.font_instances@.contains_key(
            (font_key.namespace * 0x1_0000_0000 + font_key.index) as u64,
        ),
        *font == before.state.font_instances@[(font_key.namespace * 0x1_0000_0000
            + font_key.index) as u64],
        font.size > 0,
    ensures
        before.state.pending_shadow_items.len() == 0 ==> {
            let requests = before.step().flattening.state.requests;
            &&& requests.len() == before.state.requests.len() + 1
            &&& requests.last() matches InternRequest::Primitive {
                prim: Primitive::TextRun(run),
                ..
            } && {
                &&& run.font.color.r == color.r
                &&& run.font.color.g == color.g
                &&& run.font.color.b == color.b
                &&& run.font.color.a == color.a
                &&& run.font.size == font.size
                &&& run.font.font_key == font.font_key
                &&& run.glyphs == glyphs
                &&& run.shadow is None
            }
        },
        before.state.pending_shadow_items.len() > 0 ==> {
            let waiting = before.step().flattening.state.pending_shadow_items;
            &&& waiting.len() == before.state.pending_shadow_items.len() + 1
            &&& waiting.last() matches ShadowItem::TextRun(pending) && {
                &&& pending.prim.font.color.r == color.r
                &&& pending.prim.font.color.g == color.g
                &&& pending.prim.font.color.b == color.b
                &&& pending.prim.font.color.a == color.a
                &&& pending.prim.font.size == font.size
                &&& pending.prim.font.font_key == font.font_key
                &&& pending.prim.glyphs == glyphs
                &&& pending.prim.shadow is None
            }
        },
{
    let place = lemma_place(before, item);
    let info = item.spec_get_layout_primitive_info(before.frames.last().offset);
    law_text_drawn(
        before,
        item,
        place,
        info,
        font_key,
        color,
        glyphs,
        glyph_options,
        true,
        font,
    );
}

/// A primitive that is drawn, or a transparent rectangle, can be hit last if it has
/// a tag: with that tag, in its rectangle and its clip rectangle, moved by the offset
/// of the frame, at the node that it is listed with.
pub proof fn law_rectangle_hit_where_listed<'a>(
    before: Flattening<'a>,
    item: DisplayItem,
    color: ColorF,
    tag: ItemTag,
)
    requires
        before.frames.len() > 0,
        !(before.frames.last().kind is ClosingStackingContext),
        before.frames.last().cursor < before.frames.last().list@.len(),
        before.frames.last().list@[before.frames.last().cursor as int] == item,
        before.step().result is Ok,
        before.state.sc_stack.len() > 0,
        before.state.pending_shadow_items.len() == 0,
        item.item == (SpecificDisplayItem::Rectangle { color, draws: true }),
        item.tag == Some(tag),
    ensures
        ({
            let top = before.frames.last();
            let areas = hit_order(before.step().flattening.state.hit_testing_runs);
            &&& areas == hit_order(before.state.hit_testing_runs).push(areas.last())
            &&& areas.last().0.tag == tag
            &&& areas.last().0.is_backface_visible == item.is_backface_visible
            &&& areas.last().0.rect == LayoutRect::Translated(
                Box::new(LayoutRect::Value(item.rect)),
                Box::new(top.offset),
            )
            &&& areas.last().0.clip_rect == LayoutRect::Translated(
                Box::new(LayoutRect::Value(item.clip_rect)),
                Box::new(top.offset),
            )
            &&& areas.last().1.spatial_node_index == before.state.mapping.spatial[
                item.space_and_clip.spatial_id
            ]
        }),
{
    let place = lemma_place(before, item);
    let info = item.spec_get_layout_primitive_info(before.frames.last().offset);
    if is_zero(color.a) {
        law_transparent_rectangle_hit(before, item, place, info, color, true);
    } else {
        law_rectangle_drawn(before, item, place, info, color, true);
    }
}

/// What a reference frame is placed at is the offset of the frame that it is in, plus
/// its own corner; what is in it starts again at no offset.
pub proof fn law_reference_frame_origin<'a>(
    before: Flattening<'a>,
    item: DisplayItem,
    reference_frame: ReferenceFrame,
)
    requires
        before.frames.len() > 0,
        !(before.frames.last().kind is ClosingStackingContext),
        before.frames.last().cursor < before.frames.last().list@.len(),
        before.frames.last().list@[before.frames.last().cursor as int] == item,
        before.step().result is Ok,
        before.state.sc_stack.len() > 0,
        item.item == SpecificDisplayItem::PushReferenceFrame(reference_frame),
    ensures
        ({
            let top = before.frames.last();
            let after = before.step().flattening;
            let node = after.state.tree.last();
            &&& after.state.tree.len() == before.state.tree.len() + 1
            &&& after.state.mapping.spatial.contains_key(reference_frame.id)
            &&& after.state.mapping.spatial[reference_frame.id] == (SpatialNodeIndex {
                index: before.state.tree.len() as usize,
            })
            &&& node.parent == Some(
                before.state.mapping.spatial[item.space_and_clip.spatial_id],
            )
            &&& node.pipeline_id == top.pipeline_id
            &&& node.node_type matches SpatialNodeType::ReferenceFrame(frame) && {
                &&& frame.source_transform == reference_frame.transform
                &&& frame.transform_style == reference_frame.transform_style
                &&& frame.kind == reference_frame.kind
                &&& frame.origin_in_parent_reference_frame == LayoutVector2D::Sum(
                    Box::new(top.offset),
                    Box::new(
                        LayoutVector2D::OfPoint(
                            Box::new(LayoutPoint::Value(item.rect.origin)),
                        ),
                    ),
                )
            }
            &&& after.frames.len() == before.frames.len() + 1
            &&& after.frames.last().offset == LayoutVector2D::Zero
            &&& after.frames.last().apply_pipeline_clip == top.apply_pipeline_clip
        }),
{
    let place = lemma_place(before, item);
    let info = item.spec_get_layout_primitive_info(before.frames.last().offset);
    law_reference_frame_placed(before, item, place, info, reference_frame);
}

/// A sticky frame lies in its rectangle, moved by the offset of the frame that it is
/// in.
pub proof fn law_sticky_frame_rect<'a>(
    before: Flattening<'a>,
    item: DisplayItem,
    id: SpatialId,
    margins: StickyMargins,
    vertical_offset_bounds: StickyOffsetBounds,
    horizontal_offset_bounds: StickyOffsetBounds,
    previously_applied_offset: VectorF,
)
    requires
        before.frames.len() > 0,
        !(before.frames.last().kind is ClosingStackingContext),
        before.frames.last().cursor < before.frames.last().list@.len(),
        before.frames.last().list@[before.frames.last().cursor as int] == item,
        before.step().result is Ok,
        before.state.sc_stack.len() > 0,
        item.item == (SpecificDisplayItem::StickyFrame {
            id,
            margins,
            vertical_offset_bounds,
            horizontal_offset_bounds,
            previously_applied_offset,
        }),
    ensures
        ({
            let after = before.step().flattening.state;
            let node = after.tree.last();
            &&& after.tree.len() == before.state.tree.len() + 1
            &&& after.mapping.spatial[id].index == before.state.tree.len() as usize
            &&& node.parent == Some(
                before.state.mapping.spatial[item.space_and_clip.spatial_id],
            )
            &&& node.node_type matches SpatialNodeType::StickyFrame(frame) && {
                &&& frame.frame_rect == LayoutRect::Translated(
                    Box::new(LayoutRect::Value(item.rect)),
                    Box::new(before.frames.last().offset),
                )
                &&& frame.margins == margins
                &&& frame.vertical_offset_bounds == vertical_offset_bounds
                &&& frame.horizontal_offset_bounds == horizontal_offset_bounds
                &&& frame.previously_applied_offset == previously_applied_offset
            }
        }),
{
    let place = lemma_place(before, item);
    let info = item.spec_get_layout_primitive_info(before.frames.last().offset);
    law_sticky_frame_placed(
        before,
        item,
        place,
        info,
        id,
        margins,
        vertical_offset_bounds,
        horizontal_offset_bounds,
        previously_applied_offset,
    );
}

/// A scroll frame shows, in its clip rectangle, moved by the offset of the frame that
/// it is in, content of the size of its rectangle.
pub proof fn law_scroll_frame_rect<'a>(
    before: Flattening<'a>,
    item: DisplayItem,
    clip_id: ClipId,
    scroll_frame_id: SpatialId,
    external_id: Option<ExternalScrollId>,
    scroll_sensitivity: ScrollSensitivity,
    image_mask: Option<ImageMask>,
    complex_clips: &'a Vec<ComplexClipRegion>,
)
    requires
        before.frames.len() > 0,
        !(before.frames.last().kind is ClosingStackingContext),
        before.frames.last().cursor < before.frames.last().list@.len(),
        before.frames.last().list@[before.frames.last().cursor as int] == item,
        before.step().result is Ok,
        before.state.sc_stack.len() > 0,
        item.item == (SpecificDisplayItem::ScrollFrame {
            clip_id,
            scroll_frame_id,
            external_id,
            scroll_sensitivity,
            image_mask,
            complex_clips: *complex_clips,
        }),
    ensures
        ({
            let after = before.step().flattening.state;
            let node = after.tree.last();
            &&& after.tree.len() == before.state.tree.len() + 1
            &&& after.mapping.spatial[scroll_frame_id].index == before.state.tree.len() as usize
            &&& node.parent == Some(
                before.state.mapping.spatial[item.space_and_clip.spatial_id],
            )
            &&& node.pipeline_id == before.frames.last().pipeline_id
            &&& node.node_type matches SpatialNodeType::ScrollFrame(frame) && {
                &&& frame.external_id == external_id
                &&& frame.frame_rect == LayoutRect::Translated(
                    Box::new(LayoutRect::Value(item.clip_rect)),
                    Box::new(before.frames.last().offset),
                )
                &&& frame.content_size == item.rect.size
                &&& frame.scroll_sensitivity == scroll_sensitivity
                &&& frame.frame_kind == ScrollFrameKind::Explicit
            }
        }),
{
    let place = lemma_place(before, item);
    let info = item.spec_get_layout_primitive_info(before.frames.last().offset);
    lemma_clip_known(before, item);
    law_scroll_frame_placed(
        before,
        item,
        place,
        info,
        clip_id,
        scroll_frame_id,
        external_id,
        scroll_sensitivity,
        image_mask,
        complex_clips,
    );
}

proof fn lemma_clip_known<'a>(before: Flattening<'a>, item: DisplayItem)
    requires
        before.frames.len() > 0,
        !(before.frames.last().kind is ClosingStackingContext),
        before.frames.last().cursor < before.frames.last().list@.len(),
        before.frames.last().list@[before.frames.last().cursor as int] == item,
        before.step().result is Ok,
        item.item is Clip || item.item is ScrollFrame,
    ensures
        before.state.mapping.clips.contains_key(item.space_and_clip.clip_id),
{
    reveal(Flattening::flatten_placed_item);
}

/// A clip of a display list clips, first of all, to its clip rectangle, moved by the
/// offset of the frame that it is in, on top of the clip that it is listed with; and
/// then by its mask, and by each rounded rectangle, all moved by that offset. All of
/// them move with the node that the clip is listed with.
pub proof fn law_clip_shapes_as_listed<'a>(
    before: Flattening<'a>,
    item: DisplayItem,
    id: ClipId,
    image_mask: Option<ImageMask>,
    complex_clips: &'a Vec<ComplexClipRegion>,
    k: int,
)
    requires
        before.frames.len() > 0,
        !(before.frames.last().kind is ClosingStackingContext),
        before.frames.last().cursor < before.frames.last().list@.len(),
        before.frames.last().list@[before.frames.last().cursor as int] == item,
        before.step().result is Ok,
        before.state.sc_stack.len() > 0,
        item.item == (SpecificDisplayItem::Clip {
            id,
            image_mask,
            complex_clips: *complex_clips,
        }),
        0 <= k < complex_clips@.len(),
    ensures
        ({
            let offset = before.frames.last().offset;
            let after = before.step().flattening.state;
            let n = before.state.clip_nodes.len() as int;
            let r = before.state.requests.len() as int;
            let node = before.state.mapping.spatial[item.space_and_clip.spatial_id];
            let main = LayoutRect::Translated(
                Box::new(LayoutRect::Value(item.clip_rect)),
                Box::new(offset),
            );
            let rounded = LayoutRect::Translated(
                Box::new(LayoutRect::Value(complex_clips@[k].rect)),
                Box::new(offset),
            );
            let masks = if image_mask is Some {
                1int
            } else {
                0
            };
            &&& after.clip_nodes.len() == n + 1 + masks + complex_clips@.len()
            &&& after.clip_nodes[n].local_pos == LayoutPoint::OriginOf(Box::new(main))
            &&& after.clip_nodes[n].spatial_node_index == node
            &&& after.clip_nodes[n].parent_clip_chain_id == before.state.mapping.clips[
                item.space_and_clip.clip_id
            ].id
            &&& after.clip_nodes[n].handle.index == r as usize
            &&& after.requests[r] == InternRequest::<'a>::Clip(
                ClipItemKey::Rectangle(LayoutSize::OfRect(Box::new(main)), ClipMode::Clip),
            )
            &&& image_mask matches Some(mask) ==> {
                let masked = LayoutRect::Translated(
                    Box::new(LayoutRect::Value(mask.rect)),
                    Box::new(offset),
                );
                &&& after.clip_nodes[n + 1].local_pos == LayoutPoint::OriginOf(Box::new(masked))
                &&& after.clip_nodes[n + 1].spatial_node_index == node
                &&& after.clip_nodes[n + 1].parent_clip_chain_id == ClipChainId::Node(n as usize)
                &&& after.requests[r + 1] matches InternRequest::Clip(ClipItemKey::ImageMask(m))
                    && m.image == mask.image && m.repeat == mask.repeat && m.rect == masked
            }
            &&& after.clip_nodes[n + 1 + masks + k].local_pos == LayoutPoint::OriginOf(
                Box::new(rounded),
            )
            &&& after.clip_nodes[n + 1 + masks + k].spatial_node_index == node
            &&& after.clip_nodes[n + 1 + masks + k].parent_clip_chain_id == ClipChainId::Node(
                (n + masks + k) as usize,
            )
            &&& after.requests[r + 1 + masks + k] == InternRequest::<'a>::Clip(
                ClipItemKey::RoundedRect(
                    LayoutSize::OfRect(Box::new(rounded)),
                    complex_clips@[k].radii,
                    complex_clips@[k].mode,
                ),
            )
            &&& after.mapping.clips[id].id == ClipChainId::Node(
                (after.clip_nodes.len() - 1) as usize,
            )
            &&& after.mapping.clips[id].count == (1 + masks + complex_clips@.len()) as usize
        }),
{
    let place = lemma_place(before, item);
    let info = item.spec_get_layout_primitive_info(before.frames.last().offset);
    lemma_clip_known(before, item);
    law_clip_added(before, item, place, info, id, image_mask, complex_clips);
    let listed = shapes(
        item.clip_rect,
        image_mask,
        complex_clips@,
        before.frames.last().offset,
    );
    let masks = if image_mask is Some {
        1int
    } else {
        0
    };
    assert(listed[0] == main_shape(
        item.clip_rect,
        before.frames.last().offset,
    ));
    assert(image_mask is Some ==> listed[1].key is ImageMask);
    assert(listed[1 + masks + k].key is RoundedRect);
}

/// What is in a stacking context of a display list is placed relative to its corner,
/// and the context keeps all that is listed of it until it ends.
pub proof fn law_context_as_listed<'a>(
    before: Flattening<'a>,
    item: DisplayItem,
    stacking_context: StackingContext,
    filters: &'a Vec<FilterOp>,
)
    requires
        before.wf(),
        before.frames.len() > 0,
        !(before.frames.last().kind is ClosingStackingContext),
        before.frames.last().cursor < before.frames.last().list@.len(),
        before.frames.last().list@[before.frames.last().cursor as int] == item,
        before.step().result is Ok,
        item.item == (SpecificDisplayItem::PushStackingContext {
            stacking_context,
            filters: *filters,
        }),
        before.step().flattening.frames.len() > before.frames.len(),
    ensures
        ({
            let top = before.frames.last();
            let after = before.step().flattening;
            let sc = after.state.sc_stack.last();
            &&& after.state.sc_stack.len() == before.state.sc_stack.len() + 1
            &&& after.frames.last().offset == LayoutVector2D::Sum(
                Box::new(top.offset),
                Box::new(
                    LayoutVector2D::OfPoint(Box::new(LayoutPoint::Value(item.rect.origin))),
                ),
            )
            &&& after.frames.last().pipeline_id == top.pipeline_id
            &&& after.frames.last().apply_pipeline_clip == (top.apply_pipeline_clip
                && sc.clip_chain_id == ClipChainId::Unclipped)
            &&& sc.clip_chain_id == match stacking_context.clip_id {
                Some(id) => before.state.mapping.clips[id].id,
                None => ClipChainId::Unclipped,
            }
            &&& sc.spatial_node_index == before.state.mapping.spatial[
                item.space_and_clip.spatial_id
            ]
            &&& sc.primitives.len() == 0
            &&& sc.composite_ops.filters == filters@
            &&& sc.composite_ops.mix_blend_mode == stacking_context.mix_blend_mode
            &&& sc.transform_style == stacking_context.transform_style
            &&& sc.requested_raster_space == stacking_context.raster_space
            &&& sc.create_tile_cache == stacking_context.cache_tiles
            &&& sc.is_backface_visible == item.is_backface_visible
            &&& sc.pipeline_id == top.pipeline_id
            &&& sc.blit_reason.clip <==> sc.clip_chain_id != ClipChainId::Unclipped
        }),
{
    lemma_contexts_open(before.frames);
    let place = lemma_place(before, item);
    let info = item.spec_get_layout_primitive_info(before.frames.last().offset);
    let top = before.frames.last();
    assert(top.list.len() == top.list@.len());
    if top.cursor + 1 < top.list@.len() && !(top.list@[top.cursor + 1].item
        is PopStackingContext) {
        law_item_fails(before, item);
        let clip_chain_id = match stacking_context.clip_id {
            Some(id) => before.state.mapping.clips[id].id,
            None => ClipChainId::Unclipped,
        };
        law_context_begins(before, item, place, info, stacking_context, filters, clip_chain_id);
    } else {
        law_empty_context_skipped(before, item, place, info);
    }
}

/// When a stacking context that does something and is not cached ends, the first of
/// its pictures draws exactly what was drawn in it; the picture of each filter, in
/// their order, applies that filter to the picture before it, and is marked; the
/// outermost is drawn unclipped in its parent but for the clip of the context.
pub proof fn law_filters_applied<'a>(state: FlattenerState<'a>, node_is_identity: bool, k: int)
    requires
        state.wf(),
        state.sc_stack.len() > 1,
        !top_does_nothing(state, node_is_identity),
        !state.sc_stack.last().create_tile_cache,
        state.sc_stack.last().context_3d is Out,
        !preserves_3d(state.sc_stack[state.sc_stack.len() - 2]),
        state.sc_stack.last().composite_ops.mix_blend_mode is None,
        0 <= k < state.sc_stack.last().composite_ops.filters.len(),
        state.pop_stacking_context(node_is_identity).prim_store.pictures.len() <= usize::MAX,
    ensures
        ({
            let sc = state.sc_stack.last();
            let after = state.pop_stacking_context(node_is_identity);
            let n = state.prim_store.pictures.len() as int;
            let pictures = after.prim_store.pictures;
            let count = sc.composite_ops.filters.len();
            let parent = state.sc_stack[state.sc_stack.len() - 2];
            let drawn = after.sc_stack.last().primitives;
            &&& pictures.len() == n + 1 + count
            &&& pictures[n].prim_list == sc.primitives
            &&& pictures[n].spatial_node_index == sc.spatial_node_index
            &&& pictures[n + 1 + k].requested_composite_mode matches Some(
                PictureCompositeMode::Filter(sanitized),
            ) && sanitized.filter == sc.composite_ops.filters[k]
            &&& pictures[n + 1 + k].optimize
            &&& pictures[n + 1 + k].prim_list.len() == 1
            &&& pictures[n + 1 + k].prim_list[0].kind matches PrimitiveInstanceKind::Picture {
                pic_index,
                ..
            } && pic_index.index == n + k
            &&& pictures[n + 1 + k].prim_list[0].clip_chain_id == ClipChainId::Unclipped
            &&& drawn == parent.primitives.push(drawn.last())
            &&& drawn.last().clip_chain_id == sc.clip_chain_id
            &&& drawn.last().spatial_node_index == sc.spatial_node_index
            &&& drawn.last().kind matches PrimitiveInstanceKind::Picture { pic_index, .. }
                && pic_index.index == pictures.len() - 1
        }),
{
    law_context_ends(state, node_is_identity);
    let n = state.prim_store.pictures.len() as int;
    let pictures = state.pop_stacking_context(node_is_identity).prim_store.pictures;
    assert(pictures[n + 1 + k].optimize);
}

/// When a stacking context with a mix-blend mode ends in a parent that has drawn
/// something, the outermost of its pictures is blended by that mode, and the parent
/// is isolated.
pub proof fn law_blending_applied<'a>(
    state: FlattenerState<'a>,
    node_is_identity: bool,
    mode: MixBlendMode,
)
    requires
        state.wf(),
        state.sc_stack.len() > 1,
        !state.sc_stack.last().create_tile_cache,
        state.sc_stack.last().composite_ops.mix_blend_mode == Some(mode),
        state.sc_stack[state.sc_stack.len() - 2].primitives.len() > 0,
        !preserves_3d(state.sc_stack[state.sc_stack.len() - 2]),
        state.pop_stacking_context(node_is_identity).prim_store.pictures.len() <= usize::MAX,
    ensures
        ({
            let after = state.pop_stacking_context(node_is_identity);
            let picture = after.prim_store.pictures.last();
            let before = after.prim_store.pictures.len() - 2;
            &&& picture.requested_composite_mode == Some(PictureCompositeMode::MixBlend(mode))
            &&& picture.prim_list.len() == 1
            &&& picture.prim_list[0].kind matches PrimitiveInstanceKind::Picture {
                pic_index,
                ..
            } && pic_index.index == before
            &&& after.sc_stack.last().blit_reason.isolate
            &&& after.sc_stack.last().primitives.last().kind
                matches PrimitiveInstanceKind::Picture { pic_index, .. } && pic_index.index
                == before + 1
        }),
{
    law_context_ends(state, node_is_identity);
}

/// Every picture that a stacking context becomes belongs to its pipeline, lies at its
/// positioning node, is rasterised as it asks for, and is clipped to nothing by
/// itself; its data says whether the context shows its back. The pipeline of the
/// context is provided as a texture by the outermost of the pictures that hold its
/// content alone.
pub proof fn law_pictures_like_their_context<'a>(
    state: FlattenerState<'a>,
    node_is_identity: bool,
    i: int,
)
    requires
        state.wf(),
        state.sc_stack.len() > 0,
        !top_does_nothing(state, node_is_identity),
        !state.sc_stack.last().create_tile_cache,
        state.pop_stacking_context(node_is_identity).prim_store.pictures.len() <= usize::MAX,
        state.prim_store.pictures.len() <= i < state.pop_stacking_context(
            node_is_identity,
        ).prim_store.pictures.len(),
    ensures
        ({
            let sc = state.sc_stack.last();
            let after = state.pop_stacking_context(node_is_identity);
            let picture = after.prim_store.pictures[i];
            let n = state.prim_store.pictures.len() as int;
            let provides = match sc.context_3d {
                Picture3DContext::Out => i == n,
                Picture3DContext::In { root_data: Some(_), .. } => i == n + 1,
                Picture3DContext::In { root_data: None, .. } => false,
            };
            &&& picture.pipeline_id == sc.pipeline_id
            &&& picture.spatial_node_index == sc.spatial_node_index
            &&& picture.requested_raster_space == sc.requested_raster_space
            &&& picture.apply_local_clip_rect
            &&& picture.local_clip_rect == LayoutRect::Max
            &&& picture.tile_cache is None
            &&& picture.options is None
            &&& picture.frame_output_pipeline_id == if provides {
                sc.frame_output_pipeline_id
            } else {
                None
            }
            &&& after.requests[state.requests.len() + (i - n)] matches InternRequest::Picture {
                key,
                data,
            } && {
                &&& key.is_backface_visible == sc.is_backface_visible
                &&& key.prim_size == LayoutSize::Zero
                &&& data.is_backface_visible == sc.is_backface_visible
                &&& data.prim_size == LayoutSize::Zero
                &&& key.composite_mode_key == PictureCompositeKey::Of(
                    picture.requested_composite_mode,
                ) || key.composite_mode_key == PictureCompositeKey::Identity
                    && picture.requested_composite_mode is None
            }
            &&& i == n ==> {
                &&& picture.prim_list == sc.primitives
                &&& !picture.optimize
                &&& picture.requested_composite_mode == if sc.context_3d is In {
                    Some(
                        PictureCompositeMode::Blit(
                            BlitReason {
                                preserve_3d: true,
                                clip: sc.blit_reason.clip,
                                isolate: sc.blit_reason.isolate,
                            },
                        ),
                    )
                } else if sc.blit_reason.preserve_3d || sc.blit_reason.clip
                    || sc.blit_reason.isolate {
                    Some(PictureCompositeMode::Blit(sc.blit_reason))
                } else {
                    None
                }
            }
            &&& i == n + 1 ==> (sc.context_3d matches Picture3DContext::In {
                root_data: Some(collected),
                ..
            } ==> {
                &&& picture.prim_list.len() == collected.len() + 1
                &&& picture.prim_list.drop_last() == collected
                &&& picture.prim_list.last().clip_chain_id == ClipChainId::Unclipped
                &&& picture.prim_list.last().kind matches PrimitiveInstanceKind::Picture {
                    pic_index,
                    ..
                } && pic_index.index == n
            })
        }),
{
    law_context_ends(state, node_is_identity);
    let sc = state.sc_stack.last();
    let n = state.prim_store.pictures.len() as int;
    let pictures = state.pop_stacking_context(node_is_identity).prim_store.pictures;
    if let Picture3DContext::In { root_data: Some(collected), .. } = sc.context_3d {
        assert(pictures[n + 1].prim_list.drop_last() =~= collected);
    }
}

/// The picture of a shadow is blurred by its radius, inflated if it says so, and
/// placed and clipped as the shadow is; it draws as many primitives as come after
/// the shadow, each placed and clipped as it is itself.
pub proof fn law_shadow_drawn_as_given<'a>(
    state: FlattenerState<'a>,
    pending: PendingShadow,
    items: Seq<ShadowItem<'a>>,
    offset: LayoutVector2D,
    k: int,
)
    requires
        state.sc_stack.len() > 0,
        0 <= k < waiting_among(items).len(),
    ensures
        ({
            let after = state.draw_shadow(pending, items, offset);
            let picture = after.prim_store.pictures.last();
            let shown = waiting_among(items)[k];
            let drawn = after.sc_stack.last().primitives;
            let sharp = pending.shadow.blur_radius.bits == 0 || pending.shadow.blur_radius.bits
                == 0x8000_0000;
            let by = LayoutVector2D::Value(pending.shadow.offset);
            &&& picture.requested_composite_mode matches Some(PictureCompositeMode::Filter(f))
                && f.filter == (FilterOp::ShadowBlur {
                blur_radius: pending.shadow.blur_radius,
            })
            &&& picture.options matches Some(options) && options.inflate_if_required
                == pending.shadow.should_inflate
            &&& picture.spatial_node_index == pending.clip_and_scroll.spatial_node_index
            &&& picture.pipeline_id == state.sc_stack.last().pipeline_id
            &&& picture.apply_local_clip_rect == sharp
            &&& picture.requested_raster_space == if sharp {
                state.sc_stack.last().requested_raster_space
            } else {
                RasterSpace::Local(F32 { bits: 0x3f80_0000 })
            }
            &&& drawn == state.sc_stack.last().primitives.push(drawn.last())
            &&& drawn.last().clip_chain_id == pending.clip_and_scroll.clip_chain_id
            &&& drawn.last().spatial_node_index == pending.clip_and_scroll.spatial_node_index
            &&& drawn.last().kind matches PrimitiveInstanceKind::Picture { pic_index, .. }
                && pic_index.index == state.prim_store.pictures.len() as usize
            &&& picture.prim_list[k].spatial_node_index == shown.place.spatial_node_index
            &&& picture.prim_list[k].clip_chain_id == shown.place.clip_chain_id
            &&& picture.prim_list[k].prim_origin == LayoutPoint::OriginOf(
                Box::new(
                    LayoutRect::Translated(Box::new(shown.info.rect), Box::new(by)),
                ),
            )
            &&& picture.prim_list[k].local_clip_rect == LayoutRect::Translated(
                Box::new(shown.info.clip_rect),
                Box::new(by),
            )
            &&& after.requests[state.requests.len() + k] matches InternRequest::Primitive {
                prim,
                info,
                ..
            } && {
                &&& info.tag == shown.info.tag
                &&& info.is_backface_visible == shown.info.is_backface_visible
                &&& match (prim, shown.prim) {
                    (Primitive::TextRun(a), Primitive::TextRun(b)) => a.shadow == Some(
                        pending.shadow,
                    ) && a.font == b.font && a.glyphs == b.glyphs && a.prim_offset
                        == b.prim_offset,
                    (Primitive::Image(a), Primitive::Image(b)) => a.shadow == Some(
                        pending.shadow,
                    ) && a.key == b.key && a.stretch_size == b.stretch_size && a.tile_spacing
                        == b.tile_spacing && a.sub_rect == b.sub_rect && a.color == b.color,
                    (Primitive::LineDecoration(a), Primitive::LineDecoration(b)) => a.shadow
                        == Some(pending.shadow) && a.cache_key == b.cache_key && a.color
                        == b.color,
                    (Primitive::NormalBorder(a), Primitive::NormalBorder(b)) => a.shadow == Some(
                        pending.shadow,
                    ) && a.border == b.border && a.widths == b.widths,
                    (
                        Primitive::Rectangle(
                            PrimitiveKeyKind::Rectangle { color: a, shadow, .. },
                        ),
                        Primitive::Rectangle(PrimitiveKeyKind::Rectangle { color: b, .. }),
                    ) => shadow == Some(pending.shadow) && a == b,
                    (
                        Primitive::Rectangle(PrimitiveKeyKind::Clear { shadow, .. }),
                        Primitive::Rectangle(PrimitiveKeyKind::Clear { .. }),
                    ) => shadow == Some(pending.shadow),
                    _ => false,
                }
            }
        }),
{
    lemma_makes_shown(state, pending.shadow, items, offset);
    law_float_comparison(pending.shadow.blur_radius, F32 { bits: 0 });
    lemma_waiting_kind(items, k);
    let made = state.add_shadow_prims(pending.shadow, items, offset);
    let after = state.draw_shadow(pending, items, offset);
    let shown = waiting_among(items)[k];
    assert(after.requests[state.requests.len() + k] == made.requests[state.requests.len() + k]);
    assert(after.sc_stack.last().primitives == state.sc_stack.last().primitives.push(
        after.sc_stack.last().primitives.last(),
    ));
}

/// A primitive that waits is of a kind that can cast a shadow.
proof fn lemma_waiting_kind<'a>(items: Seq<ShadowItem<'a>>, k: int)
    requires
        0 <= k < waiting_among(items).len(),
    ensures
        ({
            let prim = waiting_among(items)[k].prim;
            prim is TextRun || prim is Image || prim is LineDecoration || prim is NormalBorder
                || prim is Rectangle
        }),
    decreases items.len(),
{
    if k < waiting_among(items.drop_last()).len() {
        lemma_waiting_kind(items.drop_last(), k);
    }
}

/// The content of an iframe scrolls, in an area of the size of the iframe, under the
/// root reference frame of its pipeline; that is not transformed. It is clipped to
/// the clip rectangle of the iframe, moved by the offset of the frame that it is in.
pub proof fn law_iframe_as_listed<'a>(
    before: Flattening<'a>,
    item: DisplayItem,
    pipeline_id: PipelineId,
)
    requires
        before.frames.len() > 0,
        !(before.frames.last().kind is ClosingStackingContext),
        before.frames.last().cursor < before.frames.last().list@.len(),
        before.frames.last().list@[before.frames.last().cursor as int] == item,
        before.step().result is Ok,
        before.state.sc_stack.len() > 0,
        item.item == (SpecificDisplayItem::Iframe { pipeline_id }),
        before.step().flattening.frames.len() > before.frames.len(),
        before.state.tree.len() < usize::MAX,
    ensures
        ({
            let top = before.frames.last();
            let after = before.step().flattening;
            let t = before.state.tree.len() as int;
            let n = before.state.clip_nodes.len() as int;
            let pipeline = before.state.scene.pipelines@[(pipeline_id.namespace * 0x1_0000_0000
                + pipeline_id.index) as u64];
            let main = LayoutRect::Translated(
                Box::new(LayoutRect::Value(item.clip_rect)),
                Box::new(top.offset),
            );
            &&& after.state.tree.len() == t + 2
            &&& after.state.mapping.spatial[SpatialId { id: 0, pipeline_id }].index == t
            &&& after.state.mapping.spatial[SpatialId { id: 1, pipeline_id }].index == t + 1
            &&& after.state.tree[t].parent == Some(
                before.state.mapping.spatial[item.space_and_clip.spatial_id],
            )
            &&& after.state.tree[t].node_type matches SpatialNodeType::ReferenceFrame(frame)
                && frame.source_transform is Identity && frame.transform_style is Flat
            &&& after.state.tree[t].pipeline_id == pipeline_id
            &&& after.state.tree[t + 1].parent == Some(SpatialNodeIndex { index: t as usize })
            &&& after.state.tree[t + 1].pipeline_id == pipeline_id
            &&& after.state.tree[t + 1].node_type matches SpatialNodeType::ScrollFrame(frame) && {
                &&& frame.content_size == pipeline.content_size
                &&& frame.frame_kind == ScrollFrameKind::PipelineRoot
                &&& frame.frame_rect == LayoutRect::New(
                    Box::new(LayoutPoint::Zero),
                    Box::new(LayoutSize::Value(item.rect.size)),
                )
            }
            &&& after.state.clip_nodes.len() == n + 1
            &&& after.state.clip_nodes[n].local_pos == LayoutPoint::OriginOf(Box::new(main))
            &&& after.state.clip_nodes[n].parent_clip_chain_id == before.state.mapping.clips[
                item.space_and_clip.clip_id
            ].id
            &&& after.state.clip_nodes[n].spatial_node_index == before.state.mapping.spatial[
                item.space_and_clip.spatial_id
            ]
            &&& after.state.requests.last() == InternRequest::<'a>::Clip(
                ClipItemKey::Rectangle(LayoutSize::OfRect(Box::new(main)), ClipMode::Clip),
            )
            &&& after.state.mapping.clips[ClipId::Clip(0, pipeline_id)].id == ClipChainId::Node(
                n as usize,
            )
            &&& after.state.pipeline_clip_chain_stack.last() == ClipChainId::Node(n as usize)
            &&& after.frames.last().list == &pipeline.display_list
            &&& after.frames.last().cursor == 0
            &&& after.frames.last().pipeline_id == pipeline.pipeline_id
            &&& after.frames.last().offset == LayoutVector2D::Zero
            &&& after.frames.last().apply_pipeline_clip
        }),
{
    let place = lemma_place(before, item);
    let info = item.spec_get_layout_primitive_info(before.frames.last().offset);
    law_item_fails(before, item);
    if before.state.scene.pipelines@.contains_key(pipeline_number(pipeline_id)) {
        law_iframe_placed(
            before,
            item,
            place,
            info,
            pipeline_id,
            &before.state.scene.pipelines@[pipeline_number(pipeline_id)],
        );
        let listed = seq![main_shape(item.clip_rect, before.frames.last().offset)];
        assert(listed[0] == main_shape(item.clip_rect, before.frames.last().offset));
    } else {
        law_missing_iframe_skipped(before, item, place, info, pipeline_id);
    }
}

/// The tile cache of a stacking context is drawn white, into a picture of the root
/// pipeline, in screen space, and moves with the node that it lies at; its tiles
/// share the root clip of the pipeline. The content of the context holds it among
/// what is not cached.
pub proof fn law_cache_as_given<'a>(state: FlattenerState<'a>, node_is_identity: bool)
    requires
        state.wf(),
        state.sc_stack.len() > 0,
        !top_does_nothing(state, node_is_identity),
        top_is_cached(state),
        state.pop_stacking_context(node_is_identity).prim_store.pictures.len() <= usize::MAX,
    ensures
        ({
            let sc = state.sc_stack.last();
            let after = state.pop_stacking_context(node_is_identity);
            let n = state.prim_store.pictures.len() as int;
            let cache = after.prim_store.pictures[n];
            let content = after.prim_store.pictures[n + 1];
            &&& cache.requested_composite_mode matches Some(
                PictureCompositeMode::TileCache { clear_color },
            ) && clear_color.r.bits == 0x3f80_0000 && clear_color.g.bits == 0x3f80_0000
                && clear_color.b.bits == 0x3f80_0000 && clear_color.a.bits == 0x3f80_0000
            &&& Some(cache.pipeline_id) == state.scene.root_pipeline_id
            &&& cache.requested_raster_space is Screen
            &&& cache.tile_cache matches Some(tiles) && tiles.spatial_node_index
                == cache.spatial_node_index && tiles.root_clip_chain_id
                == state.pipeline_clip_chain_stack.last()
            &&& content.prim_list.len() + cache.prim_list.len() == sc.primitives.len() + 1
        }),
{
    let part = law_cached_context_ends(state, node_is_identity);
    let n = state.prim_store.pictures.len() as int;
    let after = state.pop_stacking_context(node_is_identity);
    let drawn = state.sc_stack.last().primitives;
    assert(after.prim_store.pictures[n].prim_list == drawn.subrange(part.0, part.1));
}

/// A stacking context makes no picture if and only if it is in no 3D hierarchy, has
/// no filter, blends with nothing, shows its back and has a clip and a raster space
/// like its parent, needs no surface, is not transformed and is not cached.
pub proof fn law_no_picture_for_nothing<'a>(state: FlattenerState<'a>, node_is_identity: bool)
    requires
        state.wf(),
        state.sc_stack.len() > 1,
        state.pop_stacking_context(node_is_identity).prim_store.pictures.len() <= usize::MAX,
    ensures
        ({
            let sc = state.sc_stack.last();
            let parent = state.sc_stack[state.sc_stack.len() - 2];
            let after = state.pop_stacking_context(node_is_identity);
            after.prim_store.pictures.len() == state.prim_store.pictures.len() <==> {
                &&& sc.context_3d is Out
                &&& sc.composite_ops.filters.len() == 0
                &&& sc.composite_ops.mix_blend_mode is Some ==> parent.primitives.len() == 0
                &&& sc.is_backface_visible == parent.is_backface_visible
                &&& sc.clip_chain_id == parent.clip_chain_id
                &&& match (sc.requested_raster_space, parent.requested_raster_space) {
                    (RasterSpace::Screen, RasterSpace::Screen) => true,
                    (RasterSpace::Local(a), RasterSpace::Local(b)) => a.bits % 0x8000_0000
                        <= 0x7f80_0000 && b.bits % 0x8000_0000 <= 0x7f80_0000 && (a.bits == b.bits
                        || a.bits % 0x8000_0000 == 0 && b.bits % 0x8000_0000 == 0),
                    _ => false,
                }
                &&& !sc.blit_reason.preserve_3d
                &&& !sc.blit_reason.clip
                &&& !sc.blit_reason.isolate
                &&& node_is_identity
                &&& !sc.create_tile_cache
            }
        }),
{
    if top_does_nothing(state, node_is_identity) {
        law_idle_context_ends(state, node_is_identity);
    } else if top_is_cached(state) {
        let _ = law_cached_context_ends(state, node_is_identity);
    } else {
        law_context_ends(state, node_is_identity);
    }
}

/// A stacking context takes part in a 3D hierarchy if and only if it has neither a
/// filter nor a mix-blend mode, and it is preserve-3d or its parent is; it is the
/// root of the hierarchy if its parent is not. It is provided as a texture if and
/// only if the embedder wants its pipeline, and its parent is of another one.
pub proof fn law_hierarchies_as_listed<'a>(
    before: Flattening<'a>,
    item: DisplayItem,
    stacking_context: StackingContext,
    filters: &'a Vec<FilterOp>,
)
    requires
        before.wf(),
        before.frames.len() > 0,
        !(before.frames.last().kind is ClosingStackingContext),
        before.frames.last().cursor < before.frames.last().list@.len(),
        before.frames.last().list@[before.frames.last().cursor as int] == item,
        before.step().result is Ok,
        item.item == (SpecificDisplayItem::PushStackingContext {
            stacking_context,
            filters: *filters,
        }),
        before.step().flattening.frames.len() > before.frames.len(),
    ensures
        ({
            let parent = before.state.sc_stack.last();
            let sc = before.step().flattening.state.sc_stack.last();
            let pipeline_id = before.frames.last().pipeline_id;
            let under_3d = parent.transform_style is Preserve3D
                && parent.composite_ops.filters.len() == 0 && parent.composite_ops.mix_blend_mode
                is None;
            &&& sc.context_3d is In <==> {
                &&& filters@.len() == 0
                &&& stacking_context.mix_blend_mode is None
                &&& stacking_context.transform_style is Preserve3D || under_3d
            }
            &&& sc.context_3d matches Picture3DContext::In { root_data, .. } ==> match root_data {
                Some(collected) => !under_3d && collected.len() == 0,
                None => under_3d,
            }
            &&& sc.context_3d matches Picture3DContext::In { ancestor_index, .. } ==> (!under_3d
                ==> ancestor_index == parent.spatial_node_index)
            &&& sc.frame_output_pipeline_id == if before.state.output_pipelines@.contains(
                (pipeline_id.namespace * 0x1_0000_0000 + pipeline_id.index) as u64,
            ) && parent.pipeline_id != pipeline_id {
                Some(pipeline_id)
            } else {
                None
            }
        }),
{
    lemma_contexts_open(before.frames);
    let place = lemma_place(before, item);
    let info = item.spec_get_layout_primitive_info(before.frames.last().offset);
    let top = before.frames.last();
    assert(top.list.len() == top.list@.len());
    if top.cursor + 1 < top.list@.len() && !(top.list@[top.cursor + 1].item
        is PopStackingContext) {
        law_item_fails(before, item);
        let clip_chain_id = match stacking_context.clip_id {
            Some(id) => before.state.mapping.clips[id].id,
            None => ClipChainId::Unclipped,
        };
        law_context_begins(before, item, place, info, stacking_context, filters, clip_chain_id);
        let stack = before.state.sc_stack;
        assert(stack[stack.len() - 1] == stack.last());
    } else {
        law_empty_context_skipped(before, item, place, info);
    }
}

/// A gradient along a line, all of whose coordinates are numbers that are not
/// negative, and one of whose stops is not transparent, is drawn between its ends,
/// from left to right, and downwards where they are above each other; its stops are
/// reversed if and only if its ends are exchanged.
pub proof fn law_gradient_runs_forward<'a>(
    before: Flattening<'a>,
    item: DisplayItem,
    gradient: Gradient,
    stops: &'a Vec<GradientStop>,
    tile_size: SizeF,
    tile_spacing: SizeF,
    i: int,
)
    requires
        before.frames.len() > 0,
        !(before.frames.last().kind is ClosingStackingContext),
        before.frames.last().cursor < before.frames.last().list@.len(),
        before.frames.last().list@[before.frames.last().cursor as int] == item,
        before.step().result is Ok,
        before.state.sc_stack.len() > 0,
        item.item == (SpecificDisplayItem::Gradient {
            gradient,
            stops: *stops,
            tile_size,
            tile_spacing,
            draws: true,
        }),
        0 <= i < stops@.len(),
        0 < stops@[i].color.a.bits <= 0x7f80_0000,
        gradient.start_point.x.bits <= 0x7f80_0000,
        gradient.start_point.y.bits <= 0x7f80_0000,
        gradient.end_point.x.bits <= 0x7f80_0000,
        gradient.end_point.y.bits <= 0x7f80_0000,
    ensures
        before.step().flattening.state.requests.last() matches InternRequest::Primitive {
            prim: Primitive::LinearGradient(drawn),
            ..
        } && {
            &&& drawn.start_point.x.bits <= drawn.end_point.x.bits
            &&& drawn.start_point.x.bits == drawn.end_point.x.bits ==> drawn.start_point.y.bits
                <= drawn.end_point.y.bits
            &&& if drawn.reverse_stops {
                &&& drawn.start_point == gradient.end_point
                &&& drawn.end_point == gradient.start_point
                &&& gradient.start_point != gradient.end_point
            } else {
                &&& drawn.start_point == gradient.start_point
                &&& drawn.end_point == gradient.end_point
            }
            &&& drawn.stops == stops
            &&& drawn.extend_mode == gradient.extend_mode
            &&& drawn.stretch_size == LayoutSize::Value(tile_size)
        },
{
    let place = lemma_place(before, item);
    let info = item.spec_get_layout_primitive_info(before.frames.last().offset);
    assert(any_stop_opaque(stops@)) by {
        assert(is_positive(stops@[i].color.a));
    }
    law_gradient_drawn(before, item, place, info, gradient, stops, tile_size, tile_spacing, true);
}

} // verus!
