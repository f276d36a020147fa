//! What the display items that draw come to: the law of each of them says, from
//! the item, where the primitive is, what it is clipped by, and what it is.
use vstd::prelude::*;

use crate::display_list::{
    BorderDetails, BorderDisplayItem, BoxShadowDisplayItem, DisplayItem, FontInstanceKey, Gradient,
    NinePatchBorder, NinePatchBorderSource, RadialGradientSpec, SpecificDisplayItem,
};
use crate::effects::{
    adds_flat_primitive, adds_primitive, can_be_hit_last, comes_next, draws_primitive, just_passes,
    listed_next, moved, passes_item, placed_as_listed, same_places,
};
use crate::hit_test::{law_hit_order_append, HitTestingItem};
use crate::ids::{ImageKey, ScrollNodeAndClipChain};
use crate::items::{linear_gradient, radial_gradient, some_stop_shows, NormalBorderRequest};
use crate::layout::{
    ColorF, F32, LayoutPoint, LayoutRect, LayoutSize, LayoutVector2D, PointF, Scalar, SizeF,
    Tiling,
};
use crate::primitives::{
    AlphaType, BaseFontInstance, ColorDepth, FontInstance, GlyphInstance, GlyphOptions,
    GradientStop, Image, ImageBorder, ImageRendering, ImageRequest, LayoutPrimitiveInfo,
    LimitedRenderMode, LineDecoration, LineDecorationCacheKey, LineOrientation, LineStyle,
    LinearGradient, NinePatchDescriptor, NormalBorder, Primitive, PrimitiveKeyKind, RadialGradient,
    RadialGradientParams, SideOffsetsF, TextRun, YuvColorSpace, YuvData, YuvFormat, YuvImage,
};
use crate::shadows::{PendingPrimitive, ShadowItem};
use crate::state::FlattenerState;
use crate::traversal::{BoxShadowRequest, FlattenStep, Flattening, Frame, Outcome};

verus! {

/// Whether a number is one of the two zeros.
pub open spec fn is_zero(number: F32) -> bool {
    number.bits == 0 || number.bits == 0x8000_0000
}

/// Whether a number is more than zero; infinity counts, and what is not a number
/// does not.
pub open spec fn is_positive(number: F32) -> bool {
    0 < number.bits <= 0x7f80_0000
}

/// The next step, if it is about an item that ends nothing, flattens that, with the
/// cursor past it.
pub proof fn lemma_step_over<'a>(
    before: Flattening<'a>,
    item: DisplayItem,
    place: ScrollNodeAndClipChain,
)
    requires
        comes_next(before, item),
        placed_as_listed(before, item, place),
        !(item.item is PopStackingContext || item.item is PopReferenceFrame),
    ensures
        ({
            let outcome = past_item(before).flatten_placed_item(&item, place);
            before.step() == if outcome.result is Err {
                Outcome { flattening: before, ..outcome }
            } else {
                outcome
            }
        }),
{
}

/// A flattening with the cursor past the next item.
pub open spec fn past_item<'a>(before: Flattening<'a>) -> Flattening<'a> {
    let top = before.frames.last();
    Flattening {
        frames: before.frames.drop_last().push(Frame { cursor: (top.cursor + 1) as usize, ..top }),
        ..before
    }
}

/// What is done with an item that draws.
proof fn lemma_drawing_item<'a>(
    next: Flattening<'a>,
    item: &'a DisplayItem,
    place: ScrollNodeAndClipChain,
)
    ensures
        ({
            let state = next.state;
            let offset = next.frames.last().offset;
            let info = item.spec_get_layout_primitive_info(offset);
            let clip_and_scroll = place;
            let outcome = next.flatten_placed_item(item, place);
            match item.item {
                SpecificDisplayItem::Image {
                    stretch_size,
                    tile_spacing,
                    image_key,
                    image_rendering,
                    alpha_type,
                    color,
                    draws,
                } => outcome == next.with_state(
                    state.add_image(
                        clip_and_scroll,
                        info,
                        stretch_size,
                        tile_spacing,
                        None,
                        image_key,
                        image_rendering,
                        alpha_type,
                        color,
                        draws,
                        offset,
                    ),
                ).goes_on(),
                SpecificDisplayItem::YuvImage {
                    yuv_data,
                    color_depth,
                    color_space,
                    image_rendering,
                    draws,
                } => outcome == next.with_state(
                    state.add_yuv_image(
                        clip_and_scroll,
                        info,
                        yuv_data,
                        color_depth,
                        color_space,
                        image_rendering,
                        draws,
                        offset,
                    ),
                ).goes_on(),
                SpecificDisplayItem::Text {
                    font_key,
                    color,
                    glyphs,
                    glyph_options,
                    draws,
                } => outcome == next.with_state(
                    state.add_text(
                        clip_and_scroll,
                        offset,
                        info,
                        font_key,
                        color,
                        &glyphs,
                        glyph_options,
                        draws,
                    ),
                ).goes_on(),
                SpecificDisplayItem::Rectangle { color, draws } => outcome == next.with_state(
                    state.add_solid_rectangle(clip_and_scroll, info, color, draws, offset),
                ).goes_on(),
                SpecificDisplayItem::ClearRectangle { draws } => outcome == next.with_state(
                    state.add_clear_rectangle(clip_and_scroll, info, draws, offset),
                ).goes_on(),
                SpecificDisplayItem::Line {
                    wavy_line_thickness,
                    orientation,
                    color,
                    style,
                    sizes,
                    draws,
                } => outcome == next.with_state(
                    state.add_line(
                        clip_and_scroll,
                        info,
                        wavy_line_thickness,
                        orientation,
                        color,
                        style,
                        sizes,
                        draws,
                        offset,
                    ),
                ).goes_on(),
                SpecificDisplayItem::Gradient {
                    gradient,
                    stops,
                    tile_size,
                    tile_spacing,
                    draws,
                } => outcome == next.with_state(
                    state.add_linear_gradient(
                        clip_and_scroll,
                        info,
                        linear_gradient(
                            info,
                            gradient.start_point,
                            gradient.end_point,
                            &stops,
                            gradient.extend_mode,
                            LayoutSize::Value(tile_size),
                            LayoutSize::Value(tile_spacing),
                            None,
                            draws,
                        ),
                        offset,
                    ),
                ).goes_on(),
                SpecificDisplayItem::RadialGradient {
                    gradient,
                    stops,
                    tile_size,
                    tile_spacing,
                    draws,
                } => outcome == next.with_state(
                    state.add_flat_item(
                        clip_and_scroll,
                        info,
                        radial_gradient(
                            info,
                            gradient,
                            &stops,
                            LayoutSize::Value(tile_size),
                            LayoutSize::Value(tile_spacing),
                            None,
                            draws,
                        ),
                        offset,
                    ),
                ).goes_on(),
                SpecificDisplayItem::BoxShadow(box_shadow) => outcome == next.asks(
                    FlattenStep::BoxShadow(
                        BoxShadowRequest {
                            clip_and_scroll,
                            info: LayoutPrimitiveInfo {
                                rect: LayoutRect::Value(box_shadow.box_bounds).translate(offset),
                                ..info
                            },
                            box_shadow,
                            reference_frame_relative_offset: offset,
                        },
                    ),
                ),
                SpecificDisplayItem::Border { border, stops, draws } => outcome == next.with_state(
                    state.add_border(clip_and_scroll, info, border, &stops, draws, offset),
                ).asks(
                    match border.details {
                        BorderDetails::NinePatch(_) => FlattenStep::Continue,
                        BorderDetails::Normal(normal) => FlattenStep::NormalBorder(
                            NormalBorderRequest {
                                clip_and_scroll,
                                info,
                                border: normal,
                                widths: border.widths,
                                reference_frame_relative_offset: offset,
                            },
                        ),
                    },
                ),
                _ => true,
            }
        }),
{
    reveal(Flattening::flatten_placed_item);
}

/// A primitive that is drawn is drawn as `draws_primitive` says.
pub proof fn lemma_draws_primitive<'a>(
    state: FlattenerState<'a>,
    place: ScrollNodeAndClipChain,
    info: LayoutPrimitiveInfo,
    prim: Primitive<'a>,
    offset: LayoutVector2D,
)
    requires
        state.sc_stack.len() > 0,
    ensures
        draws_primitive(
            state,
            state.add_nonshadowable_primitive(place, info, Seq::empty(), prim, true, offset),
            place,
            info,
            prim,
            offset,
        ),
{
    if let Some(tag) = info.tag {
        law_hit_order_append(
            state.hit_testing_runs,
            HitTestingItem {
                tag,
                rect: info.rect,
                clip_rect: info.clip_rect,
                is_backface_visible: info.is_backface_visible,
            },
            place,
        );
    }
    let after = state.add_nonshadowable_primitive(place, info, Seq::empty(), prim, true, offset);
    assert(state.build_clip_chain(
        Seq::empty(),
        place.spatial_node_index,
        place.clip_chain_id,
    ) == state);
    assert(after.sc_stack.drop_last() =~= state.sc_stack.drop_last());
}

/// A rectangle that is not transparent is filled with its colour.
pub proof fn law_rectangle_drawn<'a>(
    before: Flattening<'a>,
    item: DisplayItem,
    place: ScrollNodeAndClipChain,
    info: LayoutPrimitiveInfo,
    color: ColorF,
    draws: bool,
)
    requires
        listed_next(before, item, place, info),
        item.item == (SpecificDisplayItem::Rectangle { color, draws }),
        !is_zero(color.a),
    ensures
        just_passes(before, before.step()),
        ({
            let prim = PrimitiveKeyKind::Rectangle { color, draws, shadow: None };
            adds_primitive(
                before.state,
                before.step().flattening.state,
                place,
                info,
                Primitive::Rectangle(prim),
                draws,
                ShadowItem::Primitive(
                    PendingPrimitive { clip_and_scroll: place, info: info, prim },
                ),
                before.frames.last().offset,
            )
        }),
{
    lemma_step_over(before, item, place);
    lemma_drawing_item(past_item(before), &item, place);
    let offset = before.frames.last().offset;
    assert(info == item.spec_get_layout_primitive_info(offset));
    let prim = PrimitiveKeyKind::Rectangle { color, draws, shadow: None };
    lemma_draws_primitive(before.state, place, info, Primitive::Rectangle(prim), offset);
}

/// A rectangle that is transparent is not drawn, and casts no shadow; but its
/// area can be hit.
pub proof fn law_transparent_rectangle_hit<'a>(
    before: Flattening<'a>,
    item: DisplayItem,
    place: ScrollNodeAndClipChain,
    info: LayoutPrimitiveInfo,
    color: ColorF,
    draws: bool,
)
    requires
        listed_next(before, item, place, info),
        item.item == (SpecificDisplayItem::Rectangle { color, draws }),
        is_zero(color.a),
    ensures
        just_passes(before, before.step()),
        ({
            let after = before.step().flattening.state;
            &&& same_places(before.state, after)
            &&& after.sc_stack == before.state.sc_stack
            &&& after.pending_shadow_items == before.state.pending_shadow_items
            &&& after.prim_store == before.state.prim_store
            &&& after.requests == before.state.requests
            &&& after.root_pic_index == before.state.root_pic_index
            &&& can_be_hit_last(before.state, after, place, info)
        }),
{
    lemma_step_over(before, item, place);
    lemma_drawing_item(past_item(before), &item, place);
    assert(info == item.spec_get_layout_primitive_info(before.frames.last().offset));
    if let Some(tag) = info.tag {
        law_hit_order_append(
            before.state.hit_testing_runs,
            HitTestingItem {
                tag,
                rect: info.rect,
                clip_rect: info.clip_rect,
                is_backface_visible: info.is_backface_visible,
            },
            place,
        );
    }
}

/// A rectangle that clears is drawn as such.
pub proof fn law_clear_rectangle_drawn<'a>(
    before: Flattening<'a>,
    item: DisplayItem,
    place: ScrollNodeAndClipChain,
    info: LayoutPrimitiveInfo,
    draws: bool,
)
    requires
        listed_next(before, item, place, info),
        item.item == (SpecificDisplayItem::ClearRectangle { draws }),
    ensures
        just_passes(before, before.step()),
        ({
            let prim = PrimitiveKeyKind::Clear { draws, shadow: None };
            adds_primitive(
                before.state,
                before.step().flattening.state,
                place,
                info,
                Primitive::Rectangle(prim),
                draws,
                ShadowItem::Primitive(
                    PendingPrimitive { clip_and_scroll: place, info: info, prim },
                ),
                before.frames.last().offset,
            )
        }),
{
    lemma_step_over(before, item, place);
    lemma_drawing_item(past_item(before), &item, place);
    let offset = before.frames.last().offset;
    assert(info == item.spec_get_layout_primitive_info(offset));
    let prim = PrimitiveKeyKind::Clear { draws, shadow: None };
    lemma_draws_primitive(before.state, place, info, Primitive::Rectangle(prim), offset);
}

/// An image is drawn whole, as the display list gives it, in the rectangle and at
/// the spacing that are left when its repetition is simplified.
pub proof fn law_image_drawn<'a>(
    before: Flattening<'a>,
    item: DisplayItem,
    place: ScrollNodeAndClipChain,
    info: LayoutPrimitiveInfo,
    stretch_size: SizeF,
    tile_spacing: SizeF,
    image_key: ImageKey,
    image_rendering: ImageRendering,
    alpha_type: AlphaType,
    color: ColorF,
    draws: bool,
)
    requires
        listed_next(before, item, place, info),
        item.item == (SpecificDisplayItem::Image {
            stretch_size,
            tile_spacing,
            image_key,
            image_rendering,
            alpha_type,
            color,
            draws,
        }),
    ensures
        just_passes(before, before.step()),
        ({
            let tiling = Tiling {
                stretch_size: LayoutSize::Value(stretch_size),
                tile_spacing: LayoutSize::Value(tile_spacing),
                rect: info.rect,
            };
            let simplified = LayoutPrimitiveInfo {
                rect: LayoutRect::Simplified(Box::new(tiling)),
                clip_rect: info.clip_rect,
                is_backface_visible: info.is_backface_visible,
                tag: info.tag,
            };
            let prim = Image {
                key: image_key,
                tile_spacing: LayoutSize::SimplifiedSpacing(Box::new(tiling)),
                stretch_size: LayoutSize::Value(stretch_size),
                color,
                sub_rect: None,
                image_rendering,
                alpha_type,
                draws,
                shadow: None,
            };
            adds_primitive(
                before.state,
                before.step().flattening.state,
                place,
                simplified,
                Primitive::Image(prim),
                draws,
                ShadowItem::Image(
                    PendingPrimitive { clip_and_scroll: place, info: simplified, prim },
                ),
                before.frames.last().offset,
            )
        }),
{
    lemma_step_over(before, item, place);
    lemma_drawing_item(past_item(before), &item, place);
    let offset = before.frames.last().offset;
    assert(info == item.spec_get_layout_primitive_info(offset));
    let tiling = Tiling {
        stretch_size: LayoutSize::Value(stretch_size),
        tile_spacing: LayoutSize::Value(tile_spacing),
        rect: info.rect,
    };
    let simplified = LayoutPrimitiveInfo {
        rect: LayoutRect::Simplified(Box::new(tiling)),
        clip_rect: info.clip_rect,
        is_backface_visible: info.is_backface_visible,
        tag: info.tag,
    };
    let prim = Image {
        key: image_key,
        tile_spacing: LayoutSize::SimplifiedSpacing(Box::new(tiling)),
        stretch_size: LayoutSize::Value(stretch_size),
        color,
        sub_rect: None,
        image_rendering,
        alpha_type,
        draws,
        shadow: None,
    };
    lemma_draws_primitive(before.state, place, simplified, Primitive::Image(prim), offset);
}

/// A YUV image with a plane for brightness and one for both colours is drawn with
/// these, in this order, and without a third.
pub proof fn law_nv12_image_drawn<'a>(
    before: Flattening<'a>,
    item: DisplayItem,
    place: ScrollNodeAndClipChain,
    info: LayoutPrimitiveInfo,
    first: ImageKey,
    second: ImageKey,
    color_depth: ColorDepth,
    color_space: YuvColorSpace,
    image_rendering: ImageRendering,
    draws: bool,
)
    requires
        listed_next(before, item, place, info),
        item.item == (SpecificDisplayItem::YuvImage {
            yuv_data: YuvData::NV12(first, second),
            color_depth,
            color_space,
            image_rendering,
            draws,
        }),
    ensures
        just_passes(before, before.step()),
        ({
            let prim = YuvImage {
                color_depth,
                plane_0: first,
                plane_1: second,
                plane_2: ImageKey { namespace: 0, index: 0 },
                format: YuvFormat::NV12,
                color_space,
                image_rendering,
                draws,
            };
            adds_flat_primitive(
                before.state,
                before.step().flattening.state,
                place,
                info,
                Primitive::YuvImage(prim),
                draws,
                before.frames.last().offset,
            )
        }),
{
    lemma_step_over(before, item, place);
    lemma_drawing_item(past_item(before), &item, place);
    let offset = before.frames.last().offset;
    assert(info == item.spec_get_layout_primitive_info(offset));
    let prim = YuvImage {
        color_depth,
        plane_0: first,
        plane_1: second,
        plane_2: ImageKey { namespace: 0, index: 0 },
        format: YuvFormat::NV12,
        color_space,
        image_rendering,
        draws,
    };
    lemma_draws_primitive(before.state, place, info, Primitive::YuvImage(prim), offset);
}

/// A YUV image with three planes is drawn with these, in this order.
pub proof fn law_planar_image_drawn<'a>(
    before: Flattening<'a>,
    item: DisplayItem,
    place: ScrollNodeAndClipChain,
    info: LayoutPrimitiveInfo,
    first: ImageKey,
    second: ImageKey,
    third: ImageKey,
    color_depth: ColorDepth,
    color_space: YuvColorSpace,
    image_rendering: ImageRendering,
    draws: bool,
)
    requires
        listed_next(before, item, place, info),
        item.item == (SpecificDisplayItem::YuvImage {
            yuv_data: YuvData::PlanarYCbCr(first, second, third),
            color_depth,
            color_space,
            image_rendering,
            draws,
        }),
    ensures
        just_passes(before, before.step()),
        ({
            let prim = YuvImage {
                color_depth,
                plane_0: first,
                plane_1: second,
                plane_2: third,
                format: YuvFormat::PlanarYCbCr,
                color_space,
                image_rendering,
                draws,
            };
            adds_flat_primitive(
                before.state,
                before.step().flattening.state,
                place,
                info,
                Primitive::YuvImage(prim),
                draws,
                before.frames.last().offset,
            )
        }),
{
    lemma_step_over(before, item, place);
    lemma_drawing_item(past_item(before), &item, place);
    let offset = before.frames.last().offset;
    assert(info == item.spec_get_layout_primitive_info(offset));
    let prim = YuvImage {
        color_depth,
        plane_0: first,
        plane_1: second,
        plane_2: third,
        format: YuvFormat::PlanarYCbCr,
        color_space,
        image_rendering,
        draws,
    };
    lemma_draws_primitive(before.state, place, info, Primitive::YuvImage(prim), offset);
}

/// A YUV image with one plane is drawn with this, and without others.
pub proof fn law_interleaved_image_drawn<'a>(
    before: Flattening<'a>,
    item: DisplayItem,
    place: ScrollNodeAndClipChain,
    info: LayoutPrimitiveInfo,
    first: ImageKey,
    color_depth: ColorDepth,
    color_space: YuvColorSpace,
    image_rendering: ImageRendering,
    draws: bool,
)
    requires
        listed_next(before, item, place, info),
        item.item == (SpecificDisplayItem::YuvImage {
            yuv_data: YuvData::InterleavedYCbCr(first),
            color_depth,
            color_space,
            image_rendering,
            draws,
        }),
    ensures
        just_passes(before, before.step()),
        ({
            let prim = YuvImage {
                color_depth,
                plane_0: first,
                plane_1: ImageKey { namespace: 0, index: 0 },
                plane_2: ImageKey { namespace: 0, index: 0 },
                format: YuvFormat::InterleavedYCbCr,
                color_space,
                image_rendering,
                draws,
            };
            adds_flat_primitive(
                before.state,
                before.step().flattening.state,
                place,
                info,
                Primitive::YuvImage(prim),
                draws,
                before.frames.last().offset,
            )
        }),
{
    lemma_step_over(before, item, place);
    lemma_drawing_item(past_item(before), &item, place);
    let offset = before.frames.last().offset;
    assert(info == item.spec_get_layout_primitive_info(offset));
    let prim = YuvImage {
        color_depth,
        plane_0: first,
        plane_1: ImageKey { namespace: 0, index: 0 },
        plane_2: ImageKey { namespace: 0, index: 0 },
        format: YuvFormat::InterleavedYCbCr,
        color_space,
        image_rendering,
        draws,
    };
    lemma_draws_primitive(before.state, place, info, Primitive::YuvImage(prim), offset);
}

/// The number under which a font instance is registered.
pub open spec fn font_number(font_key: FontInstanceKey) -> u64 {
    (font_key.namespace * 0x1_0000_0000 + font_key.index) as u64
}

/// Text is drawn with all its glyphs, in the font that is registered for it, at its
/// size and in the colour of the text. The default render mode is limited by that
/// of the font, then by that of the text; flags of the text are added to those of
/// the font. Glyphs are placed relative to the text.
pub proof fn law_text_drawn<'a>(
    before: Flattening<'a>,
    item: DisplayItem,
    place: ScrollNodeAndClipChain,
    info: LayoutPrimitiveInfo,
    font_key: FontInstanceKey,
    color: ColorF,
    glyphs: &'a Vec<GlyphInstance>,
    glyph_options: Option<GlyphOptions>,
    draws: bool,
    font: &'a BaseFontInstance,
)
    requires
        listed_next(before, item, place, info),
        item.item == (SpecificDisplayItem::Text {
            font_key,
            color,
            glyphs: *glyphs,
            glyph_options,
            draws,
        }),
        before.state.font_instances@.contains_key(font_number(font_key)),
        *font == before.state.font_instances@[font_number(font_key)],
        font.size > 0,
    ensures
        just_passes(before, before.step()),
        ({
            let prim = TextRun {
                glyphs,
                prim_offset: LayoutVector2D::Difference(
                    Box::new(
                        LayoutVector2D::OfPoint(
                            Box::new(LayoutPoint::OriginOf(Box::new(info.rect))),
                        ),
                    ),
                    Box::new(before.frames.last().offset),
                ),
                font: FontInstance {
                    font_key: font.font_key,
                    size: font.size,
                    color: ColorF { r: color.r, g: color.g, b: color.b, a: color.a },
                    bg_color: font.bg_color,
                    render_mode: LimitedRenderMode {
                        mode: before.state.config.default_font_render_mode,
                        font_limit: font.render_mode,
                        glyph_limit: match glyph_options {
                            Some(options) => Some(options.render_mode),
                            None => None,
                        },
                    },
                    flags: match glyph_options {
                        Some(options) => font.flags | options.flags,
                        None => font.flags,
                    },
                    synthetic_italics: font.synthetic_italics,
                    platform_options: font.platform_options,
                    variations: &font.variations,
                },
                draws,
                shadow: None,
            };
            adds_primitive(
                before.state,
                before.step().flattening.state,
                place,
                info,
                Primitive::TextRun(prim),
                draws,
                ShadowItem::TextRun(
                    PendingPrimitive { clip_and_scroll: place, info: info, prim },
                ),
                before.frames.last().offset,
            )
        }),
{
    lemma_step_over(before, item, place);
    lemma_drawing_item(past_item(before), &item, place);
    let offset = before.frames.last().offset;
    assert(info == item.spec_get_layout_primitive_info(offset));
    let prim = TextRun {
        glyphs,
        prim_offset: LayoutVector2D::Difference(
            Box::new(
                LayoutVector2D::OfPoint(
                    Box::new(LayoutPoint::OriginOf(Box::new(info.rect))),
                ),
            ),
            Box::new(before.frames.last().offset),
        ),
        font: FontInstance {
            font_key: font.font_key,
            size: font.size,
            color: ColorF { r: color.r, g: color.g, b: color.b, a: color.a },
            bg_color: font.bg_color,
            render_mode: LimitedRenderMode {
                mode: before.state.config.default_font_render_mode,
                font_limit: font.render_mode,
                glyph_limit: match glyph_options {
                    Some(options) => Some(options.render_mode),
                    None => None,
                },
            },
            flags: match glyph_options {
                Some(options) => font.flags | options.flags,
                None => font.flags,
            },
            synthetic_italics: font.synthetic_italics,
            platform_options: font.platform_options,
            variations: &font.variations,
        },
        draws,
        shadow: None,
    };
    lemma_draws_primitive(before.state, place, info, Primitive::TextRun(prim), offset);
}

/// Text whose font is not registered, or has no size, adds nothing.
pub proof fn law_text_without_font<'a>(
    before: Flattening<'a>,
    item: DisplayItem,
    place: ScrollNodeAndClipChain,
    info: LayoutPrimitiveInfo,
    font_key: FontInstanceKey,
    color: ColorF,
    glyphs: &'a Vec<GlyphInstance>,
    glyph_options: Option<GlyphOptions>,
    draws: bool,
)
    requires
        listed_next(before, item, place, info),
        item.item == (SpecificDisplayItem::Text {
            font_key,
            color,
            glyphs: *glyphs,
            glyph_options,
            draws,
        }),
        before.state.font_instances@.contains_key(font_number(font_key)) ==> (
        before.state.font_instances@[font_number(font_key)]).size <= 0,
    ensures
        just_passes(before, before.step()),
        before.step().flattening.state == before.state,
{
    lemma_step_over(before, item, place);
    lemma_drawing_item(past_item(before), &item, place);
}

/// A length, in whole pieces: the number of pieces that it holds, rounded down,
/// times the length of a piece.
pub open spec fn whole_pieces(piece: F32, length: Scalar) -> Scalar {
    Scalar::Product(
        Box::new(Scalar::Value(piece)),
        Box::new(
            Scalar::Floor(
                Box::new(Scalar::Quotient(Box::new(length), Box::new(Scalar::Value(piece)))),
            ),
        ),
    )
}

/// A line without a mask is drawn in its colour.
pub proof fn law_line_drawn<'a>(
    before: Flattening<'a>,
    item: DisplayItem,
    place: ScrollNodeAndClipChain,
    info: LayoutPrimitiveInfo,
    wavy_line_thickness: F32,
    orientation: LineOrientation,
    color: ColorF,
    style: LineStyle,
    draws: bool,
)
    requires
        listed_next(before, item, place, info),
        item.item == (SpecificDisplayItem::Line {
            wavy_line_thickness,
            orientation,
            color,
            style,
            sizes: None,
            draws,
        }),
    ensures
        just_passes(before, before.step()),
        ({
            let prim = LineDecoration { cache_key: None, color, draws, shadow: None };
            adds_primitive(
                before.state,
                before.step().flattening.state,
                place,
                info,
                Primitive::LineDecoration(prim),
                draws,
                ShadowItem::LineDecoration(
                    PendingPrimitive { clip_and_scroll: place, info: info, prim },
                ),
                before.frames.last().offset,
            )
        }),
{
    lemma_step_over(before, item, place);
    lemma_drawing_item(past_item(before), &item, place);
    let offset = before.frames.last().offset;
    assert(info == item.spec_get_layout_primitive_info(offset));
    let prim = LineDecoration { cache_key: None, color, draws, shadow: None };
    lemma_draws_primitive(before.state, place, info, Primitive::LineDecoration(prim), offset);
}

/// A line with a mask, that is not dotted, is drawn in its colour through that mask:
/// its size is that of a piece, along the line and across it.
pub proof fn law_masked_line_drawn<'a>(
    before: Flattening<'a>,
    item: DisplayItem,
    place: ScrollNodeAndClipChain,
    info: LayoutPrimitiveInfo,
    wavy_line_thickness: F32,
    orientation: LineOrientation,
    color: ColorF,
    style: LineStyle,
    along: F32,
    across: F32,
    draws: bool,
)
    requires
        listed_next(before, item, place, info),
        item.item == (SpecificDisplayItem::Line {
            wavy_line_thickness,
            orientation,
            color,
            style,
            sizes: Some((along, across)),
            draws,
        }),
        !(style is Dotted),
    ensures
        just_passes(before, before.step()),
        ({
            let prim = LineDecoration {
                cache_key: Some(
                    LineDecorationCacheKey {
                        style,
                        orientation,
                        wavy_line_thickness,
                        size: match orientation {
                            LineOrientation::Horizontal => SizeF { width: along, height: across },
                            LineOrientation::Vertical => SizeF { width: across, height: along },
                        },
                    },
                ),
                color,
                draws,
                shadow: None,
            };
            adds_primitive(
                before.state,
                before.step().flattening.state,
                place,
                info,
                Primitive::LineDecoration(prim),
                draws,
                ShadowItem::LineDecoration(
                    PendingPrimitive { clip_and_scroll: place, info: info, prim },
                ),
                before.frames.last().offset,
            )
        }),
{
    lemma_step_over(before, item, place);
    lemma_drawing_item(past_item(before), &item, place);
    let offset = before.frames.last().offset;
    assert(info == item.spec_get_layout_primitive_info(offset));
    let prim = LineDecoration {
        cache_key: Some(
            LineDecorationCacheKey {
                style,
                orientation,
                wavy_line_thickness,
                size: match orientation {
                    LineOrientation::Horizontal => SizeF { width: along, height: across },
                    LineOrientation::Vertical => SizeF { width: across, height: along },
                },
            },
        ),
        color,
        draws,
        shadow: None,
    };
    lemma_draws_primitive(before.state, place, info, Primitive::LineDecoration(prim), offset);
}

/// A dotted line is drawn like other lines with a mask, but is clipped to the whole
/// dots that it holds along the line.
pub proof fn law_dotted_line_drawn<'a>(
    before: Flattening<'a>,
    item: DisplayItem,
    place: ScrollNodeAndClipChain,
    info: LayoutPrimitiveInfo,
    wavy_line_thickness: F32,
    orientation: LineOrientation,
    color: ColorF,
    style: LineStyle,
    along: F32,
    across: F32,
    draws: bool,
)
    requires
        listed_next(before, item, place, info),
        item.item == (SpecificDisplayItem::Line {
            wavy_line_thickness,
            orientation,
            color,
            style,
            sizes: Some((along, across)),
            draws,
        }),
        style is Dotted,
    ensures
        just_passes(before, before.step()),
        ({
            let extent = LayoutSize::OfRect(Box::new(info.rect));
            let width = Scalar::WidthOf(Box::new(extent));
            let height = Scalar::HeightOf(Box::new(extent));
            let dots = LayoutRect::New(
                Box::new(LayoutPoint::OriginOf(Box::new(info.rect))),
                Box::new(
                    match orientation {
                        LineOrientation::Horizontal => LayoutSize::New(
                            Box::new(whole_pieces(along, width)),
                            Box::new(height),
                        ),
                        LineOrientation::Vertical => LayoutSize::New(
                            Box::new(width),
                            Box::new(whole_pieces(along, height)),
                        ),
                    },
                ),
            );
            let dotted = LayoutPrimitiveInfo {
                rect: info.rect,
                clip_rect: LayoutRect::IntersectionOrZero(
                    Box::new(dots),
                    Box::new(info.clip_rect),
                ),
                is_backface_visible: info.is_backface_visible,
                tag: info.tag,
            };
            let prim = LineDecoration {
                cache_key: Some(
                    LineDecorationCacheKey {
                        style,
                        orientation,
                        wavy_line_thickness,
                        size: match orientation {
                            LineOrientation::Horizontal => SizeF { width: along, height: across },
                            LineOrientation::Vertical => SizeF { width: across, height: along },
                        },
                    },
                ),
                color,
                draws,
                shadow: None,
            };
            adds_primitive(
                before.state,
                before.step().flattening.state,
                place,
                dotted,
                Primitive::LineDecoration(prim),
                draws,
                ShadowItem::LineDecoration(
                    PendingPrimitive { clip_and_scroll: place, info: dotted, prim },
                ),
                before.frames.last().offset,
            )
        }),
{
    lemma_step_over(before, item, place);
    lemma_drawing_item(past_item(before), &item, place);
    let offset = before.frames.last().offset;
    assert(info == item.spec_get_layout_primitive_info(offset));
    let extent = LayoutSize::OfRect(Box::new(info.rect));
    let width = Scalar::WidthOf(Box::new(extent));
    let height = Scalar::HeightOf(Box::new(extent));
    let dots = LayoutRect::New(
        Box::new(LayoutPoint::OriginOf(Box::new(info.rect))),
        Box::new(
            match orientation {
                LineOrientation::Horizontal => LayoutSize::New(
                    Box::new(whole_pieces(along, width)),
                    Box::new(height),
                ),
                LineOrientation::Vertical => LayoutSize::New(
                    Box::new(width),
                    Box::new(whole_pieces(along, height)),
                ),
            },
        ),
    );
    let dotted = LayoutPrimitiveInfo {
        rect: info.rect,
        clip_rect: LayoutRect::IntersectionOrZero(
            Box::new(dots),
            Box::new(info.clip_rect),
        ),
        is_backface_visible: info.is_backface_visible,
        tag: info.tag,
    };
    let prim = LineDecoration {
        cache_key: Some(
            LineDecorationCacheKey {
                style,
                orientation,
                wavy_line_thickness,
                size: match orientation {
                    LineOrientation::Horizontal => SizeF { width: along, height: across },
                    LineOrientation::Vertical => SizeF { width: across, height: along },
                },
            },
        ),
        color,
        draws,
        shadow: None,
    };
    lemma_draws_primitive(before.state, place, dotted, Primitive::LineDecoration(prim), offset);
}

/// Whether any of the stops is not transparent.
pub open spec fn any_stop_opaque(stops: Seq<GradientStop>) -> bool {
    exists|i: int| 0 <= i < stops.len() && is_positive((#[trigger] stops[i]).color.a)
}

/// A number that is not NaN, by its place among all such numbers.
pub open spec fn float_place(number: F32) -> int {
    if number.bits < 0x8000_0000 {
        number.bits as int
    } else {
        0x8000_0000 - number.bits
    }
}

/// Whether a number is NaN.
pub open spec fn float_nan(number: F32) -> bool {
    0x7f80_0000 < number.bits < 0x8000_0000 || 0xff80_0000 < number.bits
}

/// Whether a point comes after another: it is further to the right, or below the
/// other where they are above each other.
pub open spec fn comes_after(a: PointF, b: PointF) -> bool {
    &&& !float_nan(a.x) && !float_nan(b.x)
    &&& float_place(a.x) > float_place(b.x) || {
        &&& float_place(a.x) == float_place(b.x)
        &&& !float_nan(a.y) && !float_nan(b.y)
        &&& float_place(a.y) > float_place(b.y)
    }
}

/// Numbers are compared as floating-point numbers: by their places, where both
/// zeros have the same place; NaN is neither equal to nor above any number.
pub proof fn law_float_comparison(a: F32, b: F32)
    ensures
        a.same(b) <==> !float_nan(a) && !float_nan(b) && float_place(a) == float_place(b),
        a.above(b) <==> !float_nan(a) && !float_nan(b) && float_place(a) > float_place(b),
        a.nan() <==> float_nan(a),
        is_zero(a) <==> a.same(F32 { bits: 0 }),
        is_positive(a) <==> a.above(F32 { bits: 0 }),
{
}

proof fn lemma_stops_show(stops: Seq<GradientStop>)
    ensures
        some_stop_shows(stops) == any_stop_opaque(stops),
{
    assert forall|i: int| 0 <= i < stops.len() implies (#[trigger] stops[i]).color.a.above(
        F32::zero(),
    ) == is_positive(stops[i].color.a) by {
        law_float_comparison(stops[i].color.a, F32 { bits: 0 });
    }
    if any_stop_opaque(stops) {
        let i = choose|i: int| 0 <= i < stops.len() && is_positive((#[trigger] stops[i]).color.a);
        assert(stops[i].color.a.above(F32::zero()));
    }
}

/// A gradient along a line is drawn with its stops, from its start to its end. One
/// that starts after its end is drawn from its end to its start, with its stops
/// reversed.
pub proof fn law_gradient_drawn<'a>(
    before: Flattening<'a>,
    item: DisplayItem,
    place: ScrollNodeAndClipChain,
    info: LayoutPrimitiveInfo,
    gradient: Gradient,
    stops: &'a Vec<GradientStop>,
    tile_size: SizeF,
    tile_spacing: SizeF,
    draws: bool,
)
    requires
        listed_next(before, item, place, info),
        item.item == (SpecificDisplayItem::Gradient {
            gradient,
            stops: *stops,
            tile_size,
            tile_spacing,
            draws,
        }),
        any_stop_opaque(stops@),
    ensures
        just_passes(before, before.step()),
        ({
            let backwards = comes_after(gradient.start_point, gradient.end_point);
            let prim = LinearGradient {
                extend_mode: gradient.extend_mode,
                start_point: if backwards {
                    gradient.end_point
                } else {
                    gradient.start_point
                },
                end_point: if backwards {
                    gradient.start_point
                } else {
                    gradient.end_point
                },
                stretch_size: LayoutSize::Value(tile_size),
                tile_spacing: LayoutSize::SimplifiedSpacing(
                    Box::new(
                        Tiling {
                            stretch_size: LayoutSize::Value(tile_size),
                            tile_spacing: LayoutSize::Value(tile_spacing),
                            rect: info.rect,
                        },
                    ),
                ),
                stops,
                reverse_stops: backwards,
                nine_patch: None,
                draws,
            };
            adds_flat_primitive(
                before.state,
                before.step().flattening.state,
                place,
                info,
                Primitive::LinearGradient(prim),
                draws,
                before.frames.last().offset,
            )
        }),
{
    lemma_step_over(before, item, place);
    lemma_drawing_item(past_item(before), &item, place);
    let offset = before.frames.last().offset;
    assert(info == item.spec_get_layout_primitive_info(offset));
    let backwards = comes_after(gradient.start_point, gradient.end_point);
    let prim = LinearGradient {
        extend_mode: gradient.extend_mode,
        start_point: if backwards {
            gradient.end_point
        } else {
            gradient.start_point
        },
        end_point: if backwards {
            gradient.start_point
        } else {
            gradient.end_point
        },
        stretch_size: LayoutSize::Value(tile_size),
        tile_spacing: LayoutSize::SimplifiedSpacing(
            Box::new(
                Tiling {
                    stretch_size: LayoutSize::Value(tile_size),
                    tile_spacing: LayoutSize::Value(tile_spacing),
                    rect: info.rect,
                },
            ),
        ),
        stops,
        reverse_stops: backwards,
        nine_patch: None,
        draws,
    };
    lemma_stops_show(stops@);
    lemma_draws_primitive(before.state, place, info, Primitive::LinearGradient(prim), offset);
}

/// A gradient along a line all stops of which are transparent adds nothing.
pub proof fn law_transparent_gradient<'a>(
    before: Flattening<'a>,
    item: DisplayItem,
    place: ScrollNodeAndClipChain,
    info: LayoutPrimitiveInfo,
    gradient: Gradient,
    stops: &'a Vec<GradientStop>,
    tile_size: SizeF,
    tile_spacing: SizeF,
    draws: bool,
)
    requires
        listed_next(before, item, place, info),
        item.item == (SpecificDisplayItem::Gradient {
            gradient,
            stops: *stops,
            tile_size,
            tile_spacing,
            draws,
        }),
        !any_stop_opaque(stops@),
    ensures
        just_passes(before, before.step()),
        before.step().flattening.state == before.state,
{
    lemma_step_over(before, item, place);
    lemma_drawing_item(past_item(before), &item, place);
    lemma_stops_show(stops@);
}

/// A gradient around a point is drawn with its stops, between the radii at which it
/// starts and ends.
pub proof fn law_radial_gradient_drawn<'a>(
    before: Flattening<'a>,
    item: DisplayItem,
    place: ScrollNodeAndClipChain,
    info: LayoutPrimitiveInfo,
    gradient: RadialGradientSpec,
    stops: &'a Vec<GradientStop>,
    tile_size: SizeF,
    tile_spacing: SizeF,
    draws: bool,
)
    requires
        listed_next(before, item, place, info),
        item.item == (SpecificDisplayItem::RadialGradient {
            gradient,
            stops: *stops,
            tile_size,
            tile_spacing,
            draws,
        }),
    ensures
        just_passes(before, before.step()),
        ({
            let prim = RadialGradient {
                extend_mode: gradient.extend_mode,
                center: gradient.center,
                params: RadialGradientParams {
                    start_radius: Scalar::Product(
                        Box::new(Scalar::Value(gradient.start_offset)),
                        Box::new(Scalar::Value(gradient.radius.width)),
                    ),
                    end_radius: Scalar::Product(
                        Box::new(Scalar::Value(gradient.end_offset)),
                        Box::new(Scalar::Value(gradient.radius.width)),
                    ),
                    ratio_xy: Scalar::Quotient(
                        Box::new(Scalar::Value(gradient.radius.width)),
                        Box::new(Scalar::Value(gradient.radius.height)),
                    ),
                },
                stretch_size: LayoutSize::Value(tile_size),
                tile_spacing: LayoutSize::SimplifiedSpacing(
                    Box::new(
                        Tiling {
                            stretch_size: LayoutSize::Value(tile_size),
                            tile_spacing: LayoutSize::Value(tile_spacing),
                            rect: info.rect,
                        },
                    ),
                ),
                nine_patch: None,
                stops,
                draws,
            };
            adds_flat_primitive(
                before.state,
                before.step().flattening.state,
                place,
                info,
                Primitive::RadialGradient(prim),
                draws,
                before.frames.last().offset,
            )
        }),
{
    lemma_step_over(before, item, place);
    lemma_drawing_item(past_item(before), &item, place);
    let offset = before.frames.last().offset;
    assert(info == item.spec_get_layout_primitive_info(offset));
    let prim = RadialGradient {
        extend_mode: gradient.extend_mode,
        center: gradient.center,
        params: RadialGradientParams {
            start_radius: Scalar::Product(
                Box::new(Scalar::Value(gradient.start_offset)),
                Box::new(Scalar::Value(gradient.radius.width)),
            ),
            end_radius: Scalar::Product(
                Box::new(Scalar::Value(gradient.end_offset)),
                Box::new(Scalar::Value(gradient.radius.width)),
            ),
            ratio_xy: Scalar::Quotient(
                Box::new(Scalar::Value(gradient.radius.width)),
                Box::new(Scalar::Value(gradient.radius.height)),
            ),
        },
        stretch_size: LayoutSize::Value(tile_size),
        tile_spacing: LayoutSize::SimplifiedSpacing(
            Box::new(
                Tiling {
                    stretch_size: LayoutSize::Value(tile_size),
                    tile_spacing: LayoutSize::Value(tile_spacing),
                    rect: info.rect,
                },
            ),
        ),
        nine_patch: None,
        stops,
        draws,
    };
    lemma_draws_primitive(before.state, place, info, Primitive::RadialGradient(prim), offset);
}

/// Whether a descriptor says how a border is cut as the display list does.
pub open spec fn cut_as_listed(
    border: NinePatchBorder,
    widths: SideOffsetsF,
    nine_patch: NinePatchDescriptor,
) -> bool {
    &&& nine_patch.width == border.width
    &&& nine_patch.height == border.height
    &&& nine_patch.slice == border.slice
    &&& nine_patch.fill == border.fill
    &&& nine_patch.repeat_horizontal == border.repeat_horizontal
    &&& nine_patch.repeat_vertical == border.repeat_vertical
    &&& nine_patch.outset == border.outset
    &&& nine_patch.widths == widths
}

/// A border that is cut from an image is drawn with that image, cut as listed.
pub proof fn law_image_border_drawn<'a>(
    before: Flattening<'a>,
    item: DisplayItem,
    place: ScrollNodeAndClipChain,
    info: LayoutPrimitiveInfo,
    border: NinePatchBorder,
    widths: SideOffsetsF,
    nine_patch: NinePatchDescriptor,
    stops: &'a Vec<GradientStop>,
    draws: bool,
    key: ImageKey,
)
    requires
        listed_next(before, item, place, info),
        item.item == (SpecificDisplayItem::Border {
            border: BorderDisplayItem { widths, details: BorderDetails::NinePatch(border) },
            stops: *stops,
            draws,
        }),
        cut_as_listed(border, widths, nine_patch),
        border.source == NinePatchBorderSource::Image(key),
    ensures
        just_passes(before, before.step()),
        ({
            let prim = ImageBorder {
                request: ImageRequest { key, rendering: ImageRendering::Auto },
                nine_patch,
                draws,
            };
            adds_flat_primitive(
                before.state,
                before.step().flattening.state,
                place,
                info,
                Primitive::ImageBorder(prim),
                draws,
                before.frames.last().offset,
            )
        }),
{
    lemma_step_over(before, item, place);
    lemma_drawing_item(past_item(before), &item, place);
    let offset = before.frames.last().offset;
    assert(info == item.spec_get_layout_primitive_info(offset));
    let prim = ImageBorder {
        request: ImageRequest { key, rendering: ImageRendering::Auto },
        nine_patch,
        draws,
    };
    lemma_draws_primitive(before.state, place, info, Primitive::ImageBorder(prim), offset);
}

/// A border that is cut from a gradient along a line is drawn like such a gradient,
/// stretched to the size of the border and cut as listed.
pub proof fn law_gradient_border_drawn<'a>(
    before: Flattening<'a>,
    item: DisplayItem,
    place: ScrollNodeAndClipChain,
    info: LayoutPrimitiveInfo,
    border: NinePatchBorder,
    widths: SideOffsetsF,
    nine_patch: NinePatchDescriptor,
    stops: &'a Vec<GradientStop>,
    draws: bool,
    gradient: Gradient,
)
    requires
        listed_next(before, item, place, info),
        item.item == (SpecificDisplayItem::Border {
            border: BorderDisplayItem { widths, details: BorderDetails::NinePatch(border) },
            stops: *stops,
            draws,
        }),
        cut_as_listed(border, widths, nine_patch),
        border.source == NinePatchBorderSource::Gradient(gradient),
        any_stop_opaque(stops@),
    ensures
        just_passes(before, before.step()),
        ({
            let backwards = comes_after(gradient.start_point, gradient.end_point);
            let prim = LinearGradient {
                extend_mode: gradient.extend_mode,
                start_point: if backwards {
                    gradient.end_point
                } else {
                    gradient.start_point
                },
                end_point: if backwards {
                    gradient.start_point
                } else {
                    gradient.end_point
                },
                stretch_size: LayoutSize::New(
                    Box::new(Scalar::OfInt(border.height)),
                    Box::new(Scalar::OfInt(border.width)),
                ),
                tile_spacing: LayoutSize::SimplifiedSpacing(
                    Box::new(
                        Tiling {
                            stretch_size: LayoutSize::New(
                    Box::new(Scalar::OfInt(border.height)),
                    Box::new(Scalar::OfInt(border.width)),
                ),
                            tile_spacing: LayoutSize::Zero,
                            rect: info.rect,
                        },
                    ),
                ),
                stops,
                reverse_stops: backwards,
                nine_patch: Some(nine_patch),
                draws,
            };
            adds_flat_primitive(
                before.state,
                before.step().flattening.state,
                place,
                info,
                Primitive::LinearGradient(prim),
                draws,
                before.frames.last().offset,
            )
        }),
{
    lemma_step_over(before, item, place);
    lemma_drawing_item(past_item(before), &item, place);
    let offset = before.frames.last().offset;
    assert(info == item.spec_get_layout_primitive_info(offset));
    let backwards = comes_after(gradient.start_point, gradient.end_point);
    let prim = LinearGradient {
        extend_mode: gradient.extend_mode,
        start_point: if backwards {
            gradient.end_point
        } else {
            gradient.start_point
        },
        end_point: if backwards {
            gradient.start_point
        } else {
            gradient.end_point
        },
        stretch_size: LayoutSize::New(
            Box::new(Scalar::OfInt(border.height)),
            Box::new(Scalar::OfInt(border.width)),
        ),
        tile_spacing: LayoutSize::SimplifiedSpacing(
            Box::new(
                Tiling {
                    stretch_size: LayoutSize::New(
            Box::new(Scalar::OfInt(border.height)),
            Box::new(Scalar::OfInt(border.width)),
        ),
                    tile_spacing: LayoutSize::Zero,
                    rect: info.rect,
                },
            ),
        ),
        stops,
        reverse_stops: backwards,
        nine_patch: Some(nine_patch),
        draws,
    };
    lemma_stops_show(stops@);
    lemma_draws_primitive(before.state, place, info, Primitive::LinearGradient(prim), offset);
}

/// A border that is cut from a gradient around a point is drawn like such a gradient,
/// stretched to the size of the border and cut as listed.
pub proof fn law_radial_border_drawn<'a>(
    before: Flattening<'a>,
    item: DisplayItem,
    place: ScrollNodeAndClipChain,
    info: LayoutPrimitiveInfo,
    border: NinePatchBorder,
    widths: SideOffsetsF,
    nine_patch: NinePatchDescriptor,
    stops: &'a Vec<GradientStop>,
    draws: bool,
    gradient: RadialGradientSpec,
)
    requires
        listed_next(before, item, place, info),
        item.item == (SpecificDisplayItem::Border {
            border: BorderDisplayItem { widths, details: BorderDetails::NinePatch(border) },
            stops: *stops,
            draws,
        }),
        cut_as_listed(border, widths, nine_patch),
        border.source == NinePatchBorderSource::RadialGradient(gradient),
    ensures
        just_passes(before, before.step()),
        ({
            let prim = RadialGradient {
                extend_mode: gradient.extend_mode,
                center: gradient.center,
                params: RadialGradientParams {
                    start_radius: Scalar::Product(
                        Box::new(Scalar::Value(gradient.start_offset)),
                        Box::new(Scalar::Value(gradient.radius.width)),
                    ),
                    end_radius: Scalar::Product(
                        Box::new(Scalar::Value(gradient.end_offset)),
                        Box::new(Scalar::Value(gradient.radius.width)),
                    ),
                    ratio_xy: Scalar::Quotient(
                        Box::new(Scalar::Value(gradient.radius.width)),
                        Box::new(Scalar::Value(gradient.radius.height)),
                    ),
                },
                stretch_size: LayoutSize::New(
                    Box::new(Scalar::OfInt(border.height)),
                    Box::new(Scalar::OfInt(border.width)),
                ),
                tile_spacing: LayoutSize::SimplifiedSpacing(
                    Box::new(
                        Tiling {
                            stretch_size: LayoutSize::New(
                    Box::new(Scalar::OfInt(border.height)),
                    Box::new(Scalar::OfInt(border.width)),
                ),
                            tile_spacing: LayoutSize::Zero,
                            rect: info.rect,
                        },
                    ),
                ),
                nine_patch: Some(nine_patch),
                stops,
                draws,
            };
            adds_flat_primitive(
                before.state,
                before.step().flattening.state,
                place,
                info,
                Primitive::RadialGradient(prim),
                draws,
                before.frames.last().offset,
            )
        }),
{
    lemma_step_over(before, item, place);
    lemma_drawing_item(past_item(before), &item, place);
    let offset = before.frames.last().offset;
    assert(info == item.spec_get_layout_primitive_info(offset));
    let prim = RadialGradient {
        extend_mode: gradient.extend_mode,
        center: gradient.center,
        params: RadialGradientParams {
            start_radius: Scalar::Product(
                Box::new(Scalar::Value(gradient.start_offset)),
                Box::new(Scalar::Value(gradient.radius.width)),
            ),
            end_radius: Scalar::Product(
                Box::new(Scalar::Value(gradient.end_offset)),
                Box::new(Scalar::Value(gradient.radius.width)),
            ),
            ratio_xy: Scalar::Quotient(
                Box::new(Scalar::Value(gradient.radius.width)),
                Box::new(Scalar::Value(gradient.radius.height)),
            ),
        },
        stretch_size: LayoutSize::New(
            Box::new(Scalar::OfInt(border.height)),
            Box::new(Scalar::OfInt(border.width)),
        ),
        tile_spacing: LayoutSize::SimplifiedSpacing(
            Box::new(
                Tiling {
                    stretch_size: LayoutSize::New(
            Box::new(Scalar::OfInt(border.height)),
            Box::new(Scalar::OfInt(border.width)),
        ),
                    tile_spacing: LayoutSize::Zero,
                    rect: info.rect,
                },
            ),
        ),
        nine_patch: Some(nine_patch),
        stops,
        draws,
    };
    lemma_draws_primitive(before.state, place, info, Primitive::RadialGradient(prim), offset);
}

/// A border that is cut from a gradient along a line all stops of which are
/// transparent adds nothing.
pub proof fn law_transparent_border<'a>(
    before: Flattening<'a>,
    item: DisplayItem,
    place: ScrollNodeAndClipChain,
    info: LayoutPrimitiveInfo,
    border: NinePatchBorder,
    widths: SideOffsetsF,
    stops: &'a Vec<GradientStop>,
    draws: bool,
)
    requires
        listed_next(before, item, place, info),
        item.item == (SpecificDisplayItem::Border {
            border: BorderDisplayItem { widths, details: BorderDetails::NinePatch(border) },
            stops: *stops,
            draws,
        }),
        border.source is Gradient,
        !any_stop_opaque(stops@),
    ensures
        just_passes(before, before.step()),
        before.step().flattening.state == before.state,
{
    lemma_step_over(before, item, place);
    lemma_drawing_item(past_item(before), &item, place);
    lemma_stops_show(stops@);
}

/// A border with a style for each side is left to the embedder, with its widths,
/// its place and its layout; nothing is added.
pub proof fn law_normal_border_requested<'a>(
    before: Flattening<'a>,
    item: DisplayItem,
    place: ScrollNodeAndClipChain,
    info: LayoutPrimitiveInfo,
    border: NormalBorder,
    widths: SideOffsetsF,
    stops: &'a Vec<GradientStop>,
    draws: bool,
)
    requires
        listed_next(before, item, place, info),
        item.item == (SpecificDisplayItem::Border {
            border: BorderDisplayItem { widths, details: BorderDetails::Normal(border) },
            stops: *stops,
            draws,
        }),
    ensures
        passes_item(before.frames, before.step().flattening.frames),
        before.step().flattening.state == before.state,
        before.step().result matches Ok(FlattenStep::NormalBorder(request)) && {
            &&& request.clip_and_scroll == place
            &&& request.info == info
            &&& request.border == border
            &&& request.widths == widths
            &&& request.reference_frame_relative_offset == before.frames.last().offset
        },
{
    lemma_step_over(before, item, place);
    lemma_drawing_item(past_item(before), &item, place);
    assert(info == item.spec_get_layout_primitive_info(before.frames.last().offset));
}

/// The shadow of a box is left to the embedder, with its place and its layout, but
/// with the rectangle of the box; nothing is added.
pub proof fn law_box_shadow_requested<'a>(
    before: Flattening<'a>,
    item: DisplayItem,
    place: ScrollNodeAndClipChain,
    info: LayoutPrimitiveInfo,
    box_shadow: BoxShadowDisplayItem,
)
    requires
        listed_next(before, item, place, info),
        item.item == SpecificDisplayItem::BoxShadow(box_shadow),
    ensures
        passes_item(before.frames, before.step().flattening.frames),
        before.step().flattening.state == before.state,
        before.step().result matches Ok(FlattenStep::BoxShadow(request)) && {
            &&& request.clip_and_scroll == place
            &&& request.info.rect == moved(box_shadow.box_bounds, before.frames.last().offset)
            &&& request.info.clip_rect == info.clip_rect
            &&& request.info.is_backface_visible == info.is_backface_visible
            &&& request.info.tag == info.tag
            &&& request.box_shadow == box_shadow
            &&& request.reference_frame_relative_offset == before.frames.last().offset
        },
{
    lemma_step_over(before, item, place);
    lemma_drawing_item(past_item(before), &item, place);
    assert(info == item.spec_get_layout_primitive_info(before.frames.last().offset));
}

/// Marks for the parser of display lists change nothing.
pub proof fn law_marks_change_nothing<'a>(
    before: Flattening<'a>,
    item: DisplayItem,
    place: ScrollNodeAndClipChain,
    info: LayoutPrimitiveInfo,
)
    requires
        listed_next(before, item, place, info),
        item.item is SetGradientStops || item.item is PushCacheMarker || item.item
            is PopCacheMarker,
    ensures
        just_passes(before, before.step()),
        before.step().flattening.state == before.state,
{
    reveal(Flattening::flatten_placed_item);
}

} // verus!
