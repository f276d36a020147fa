//! The display items that draw, and the primitives that they become.
use vstd::prelude::*;

use crate::display_list::{
    BorderDetails, BorderDisplayItem, FontInstanceKey, NinePatchBorder,
    NinePatchBorderSource, RadialGradientSpec,
};
use crate::flattener::DisplayListFlattener;
use crate::ids::{ImageKey, ScrollNodeAndClipChain};
use crate::layout::{
    ColorF, F32, LayoutRect, LayoutSize, LayoutVector2D, PointF, Scalar, SizeF,
    Tiling,
};
use crate::primitives::{
    AlphaType, BaseFontInstance, ColorDepth, DeviceIntRect, ExtendMode, FontInstance,
    FontRenderMode, GlyphInstance, GlyphOptions, GradientStop, Image, ImageBorder, ImageRendering,
    ImageRequest, Internable, IsVisible, LayoutPrimitiveInfo, LimitedRenderMode, LineDecoration,
    LineDecorationCacheKey, LineOrientation, LineStyle, LinearGradient, NinePatchDescriptor,
    NormalBorder, PrimitiveKeyKind, RadialGradient, RadialGradientParams, SideOffsetsF, TexelRect,
    TextRun, YuvColorSpace, YuvData, YuvImage,
};
use crate::shadows::{PendingPrimitive, ShadowItem};
use crate::state::FlattenerState;

verus! {

/// The part of the size of a dotted line that whole dots fill: along the line it
/// is rounded down to a multiple of the size of a dot.
pub open spec fn whole_dots_size(
    rect: LayoutRect,
    orientation: LineOrientation,
    inline_size: F32,
) -> LayoutSize {
    let width = Scalar::WidthOf(Box::new(rect.size()));
    let height = Scalar::HeightOf(Box::new(rect.size()));
    match orientation {
        LineOrientation::Horizontal => LayoutSize::New(
            Box::new(whole_dots(inline_size, width)),
            Box::new(height),
        ),
        LineOrientation::Vertical => LayoutSize::New(
            Box::new(width),
            Box::new(whole_dots(inline_size, height)),
        ),
    }
}

/// `length`, rounded down to a multiple of `inline_size`.
pub open spec fn whole_dots(inline_size: F32, length: Scalar) -> Scalar {
    Scalar::Product(
        Box::new(Scalar::Value(inline_size)),
        Box::new(
            Scalar::Floor(
                Box::new(
                    Scalar::Quotient(Box::new(length), Box::new(Scalar::Value(inline_size))),
                ),
            ),
        ),
    )
}

/// What a line is clipped to: a dotted line, besides, to its whole dots.
pub open spec fn line_clip_rect(
    info: LayoutPrimitiveInfo,
    orientation: LineOrientation,
    style: LineStyle,
    sizes: Option<(F32, F32)>,
) -> LayoutRect {
    match (sizes, style) {
        (Some((inline_size, _)), LineStyle::Dotted) => LayoutRect::IntersectionOrZero(
            Box::new(
                LayoutRect::New(
                    Box::new(info.rect.origin()),
                    Box::new(whole_dots_size(info.rect, orientation, inline_size)),
                ),
            ),
            Box::new(info.clip_rect),
        ),
        _ => info.clip_rect,
    }
}

/// The key of the mask that a line is drawn with, if any.
pub open spec fn line_cache_key(
    wavy_line_thickness: F32,
    orientation: LineOrientation,
    style: LineStyle,
    sizes: Option<(F32, F32)>,
) -> Option<LineDecorationCacheKey> {
    match sizes {
        Some((inline_size, block_size)) => Some(
            LineDecorationCacheKey {
                style,
                orientation,
                wavy_line_thickness,
                size: match orientation {
                    LineOrientation::Horizontal => SizeF { width: inline_size, height: block_size },
                    LineOrientation::Vertical => SizeF { width: block_size, height: inline_size },
                },
            },
        ),
        None => None,
    }
}

/// Whether any of the stops has a colour that is not transparent.
pub open spec fn some_stop_shows(stops: Seq<GradientStop>) -> bool {
    exists|i: int| 0 <= i < stops.len() && (#[trigger] stops[i]).color.a.above(F32::zero())
}

/// Whether a gradient line runs against the reference orientation, in which it
/// starts at the smaller x coordinate, and at the smaller y coordinate where the
/// others are equal.
pub open spec fn runs_backwards(start_point: PointF, end_point: PointF) -> bool {
    start_point.x.above(end_point.x) || (start_point.x.same(end_point.x) && start_point.y.above(
        end_point.y,
    ))
}

/// The gradient along a line. One whose stops are all transparent adds nothing.
pub open spec fn linear_gradient<'a>(
    info: LayoutPrimitiveInfo,
    start_point: PointF,
    end_point: PointF,
    stops: &'a Vec<GradientStop>,
    extend_mode: ExtendMode,
    stretch_size: LayoutSize,
    tile_spacing: LayoutSize,
    nine_patch: Option<NinePatchDescriptor>,
    draws: bool,
) -> Option<LinearGradient<'a>> {
    if some_stop_shows(stops@) {
        let reverse_stops = runs_backwards(start_point, end_point);
        Some(
            LinearGradient {
                extend_mode,
                start_point: if reverse_stops {
                    end_point
                } else {
                    start_point
                },
                end_point: if reverse_stops {
                    start_point
                } else {
                    end_point
                },
                stretch_size,
                tile_spacing: LayoutSize::SimplifiedSpacing(
                    Box::new(Tiling { stretch_size, tile_spacing, rect: info.rect }),
                ),
                stops,
                reverse_stops,
                nine_patch,
                draws,
            },
        )
    } else {
        None
    }
}

/// The radius at which a gradient around a point begins or ends: an offset,
/// scaled by the horizontal radius.
pub open spec fn scaled_radius(gradient: RadialGradientSpec, offset: F32) -> Scalar {
    Scalar::Product(
        Box::new(Scalar::Value(offset)),
        Box::new(Scalar::Value(gradient.radius.width)),
    )
}

/// The ratio of the radii of a gradient around a point.
pub open spec fn radius_ratio(gradient: RadialGradientSpec) -> Scalar {
    Scalar::Quotient(
        Box::new(Scalar::Value(gradient.radius.width)),
        Box::new(Scalar::Value(gradient.radius.height)),
    )
}

/// The gradient around a point.
pub open spec fn radial_gradient<'a>(
    info: LayoutPrimitiveInfo,
    gradient: RadialGradientSpec,
    stops: &'a Vec<GradientStop>,
    stretch_size: LayoutSize,
    tile_spacing: LayoutSize,
    nine_patch: Option<NinePatchDescriptor>,
    draws: bool,
) -> RadialGradient<'a> {
    RadialGradient {
        extend_mode: gradient.extend_mode,
        center: gradient.center,
        params: RadialGradientParams {
            start_radius: scaled_radius(gradient, gradient.start_offset),
            end_radius: scaled_radius(gradient, gradient.end_offset),
            ratio_xy: radius_ratio(gradient),
        },
        stretch_size,
        tile_spacing: LayoutSize::SimplifiedSpacing(
            Box::new(Tiling { stretch_size, tile_spacing, rect: info.rect }),
        ),
        nine_patch,
        stops,
        draws,
    }
}

/// How the image of a border is cut.
pub open spec fn nine_patch_descriptor(
    border: NinePatchBorder,
    widths: SideOffsetsF,
) -> NinePatchDescriptor {
    NinePatchDescriptor {
        width: border.width,
        height: border.height,
        slice: border.slice,
        fill: border.fill,
        repeat_horizontal: border.repeat_horizontal,
        repeat_vertical: border.repeat_vertical,
        outset: border.outset,
        widths,
    }
}

/// The size to which the gradient of a border is stretched.
pub open spec fn nine_patch_stretch_size(border: NinePatchBorder) -> LayoutSize {
    LayoutSize::New(
        Box::new(Scalar::OfInt(border.height)),
        Box::new(Scalar::OfInt(border.width)),
    )
}

/// The font of a text run: the registered font, in a colour, with the options
/// of the run.
pub open spec fn run_font<'a>(
    font_instance: &'a BaseFontInstance,
    default_mode: FontRenderMode,
    text_color: ColorF,
    glyph_options: Option<GlyphOptions>,
) -> FontInstance<'a> {
    FontInstance {
        font_key: font_instance.font_key,
        size: font_instance.size,
        color: text_color,
        bg_color: font_instance.bg_color,
        render_mode: LimitedRenderMode {
            mode: default_mode,
            font_limit: font_instance.render_mode,
            glyph_limit: match glyph_options {
                Some(options) => Some(options.render_mode),
                None => None,
            },
        },
        flags: match glyph_options {
            Some(options) => font_instance.flags | options.flags,
            None => font_instance.flags,
        },
        synthetic_italics: font_instance.synthetic_italics,
        platform_options: font_instance.platform_options,
        variations: &font_instance.variations,
    }
}

/// The part of an image that is drawn, in whole texels.
pub open spec fn texel_sub_rect(texel_rect: TexelRect) -> DeviceIntRect {
    DeviceIntRect {
        x: Scalar::Value(texel_rect.uv0.x),
        y: Scalar::Value(texel_rect.uv0.y),
        width: Scalar::Difference(
            Box::new(Scalar::Value(texel_rect.uv1.x)),
            Box::new(Scalar::Value(texel_rect.uv0.x)),
        ),
        height: Scalar::Difference(
            Box::new(Scalar::Value(texel_rect.uv1.y)),
            Box::new(Scalar::Value(texel_rect.uv0.y)),
        ),
    }
}

/// The three planes of a YUV image; those that its layout does not have are the
/// dummy.
pub open spec fn yuv_planes(yuv_data: YuvData) -> (ImageKey, ImageKey, ImageKey) {
    match yuv_data {
        YuvData::NV12(plane_0, plane_1) => (plane_0, plane_1, ImageKey::dummy()),
        YuvData::PlanarYCbCr(plane_0, plane_1, plane_2) => (plane_0, plane_1, plane_2),
        YuvData::InterleavedYCbCr(plane_0) => (plane_0, ImageKey::dummy(), ImageKey::dummy()),
    }
}

/// A border with a style for each side, which the embedder turns into
/// primitives: it is where such borders are cut into edges and corners.
#[derive(Debug)]
pub struct NormalBorderRequest {
    pub clip_and_scroll: ScrollNodeAndClipChain,
    pub info: LayoutPrimitiveInfo,
    pub border: NormalBorder,
    pub widths: SideOffsetsF,
    pub reference_frame_relative_offset: LayoutVector2D,
}

/// Whether a border is drawn at once: one that is cut into nine parts is, unless
/// it is cut from a gradient that does not show.
pub open spec fn border_draws(
    border_item: BorderDisplayItem,
    stops: Seq<GradientStop>,
    draws: bool,
) -> bool {
    border_item.details matches BorderDetails::NinePatch(border) && draws && (border.source
        is Gradient ==> some_stop_shows(stops))
}

impl<'a> FlattenerState<'a> {
    /// Whether a primitive that can cast a shadow can be added: where it draws,
    /// and no shadow is active that it would wait for, it needs a stacking
    /// context.
    pub open spec fn can_take(self, draws: bool) -> bool {
        self.pending_shadow_items.len() == 0 && draws ==> self.sc_stack.len() > 0
    }

    /// Adds a primitive that can cast a shadow, without clips of its own.
    /// `pending` makes an item of it that waits for the shadows to be popped.
    pub open spec fn add_item<P: Internable<'a> + IsVisible>(
        self,
        clip_and_scroll: ScrollNodeAndClipChain,
        info: LayoutPrimitiveInfo,
        prim: P,
        pending: spec_fn(PendingPrimitive<P>) -> ShadowItem<'a>,
        offset: LayoutVector2D,
    ) -> Self {
        self.add_primitive(
            clip_and_scroll,
            info,
            Seq::empty(),
            prim.key(),
            prim.visible(),
            pending(PendingPrimitive { clip_and_scroll, info, prim }),
            offset,
        )
    }

    /// Adds a primitive that casts no shadow, without clips of its own.
    pub open spec fn add_flat_item<P: Internable<'a> + IsVisible>(
        self,
        clip_and_scroll: ScrollNodeAndClipChain,
        info: LayoutPrimitiveInfo,
        prim: P,
        offset: LayoutVector2D,
    ) -> Self {
        self.add_nonshadowable_primitive(
            clip_and_scroll,
            info,
            Seq::empty(),
            prim.key(),
            prim.visible(),
            offset,
        )
    }

    /// Adds a rectangle. A transparent one is not drawn, but can be hit.
    pub open spec fn add_solid_rectangle(
        self,
        clip_and_scroll: ScrollNodeAndClipChain,
        info: LayoutPrimitiveInfo,
        color: ColorF,
        draws: bool,
        offset: LayoutVector2D,
    ) -> Self {
        if color.a.same(F32::zero()) {
            self.add_primitive_to_hit_testing_list(info, clip_and_scroll)
        } else {
            self.add_item(
                clip_and_scroll,
                info,
                PrimitiveKeyKind::Rectangle { color, draws, shadow: None },
                |p| ShadowItem::Primitive(p),
                offset,
            )
        }
    }

    /// Adds a rectangle that clears what is under it.
    pub open spec fn add_clear_rectangle(
        self,
        clip_and_scroll: ScrollNodeAndClipChain,
        info: LayoutPrimitiveInfo,
        draws: bool,
        offset: LayoutVector2D,
    ) -> Self {
        self.add_item(
            clip_and_scroll,
            info,
            PrimitiveKeyKind::Clear { draws, shadow: None },
            |p| ShadowItem::Primitive(p),
            offset,
        )
    }

    /// Adds a line decoration.
    pub open spec fn add_line(
        self,
        clip_and_scroll: ScrollNodeAndClipChain,
        info: LayoutPrimitiveInfo,
        wavy_line_thickness: F32,
        orientation: LineOrientation,
        color: ColorF,
        style: LineStyle,
        sizes: Option<(F32, F32)>,
        draws: bool,
        offset: LayoutVector2D,
    ) -> Self {
        self.add_item(
            clip_and_scroll,
            LayoutPrimitiveInfo {
                clip_rect: line_clip_rect(info, orientation, style, sizes),
                ..info
            },
            LineDecoration {
                cache_key: line_cache_key(wavy_line_thickness, orientation, style, sizes),
                color,
                draws,
                shadow: None,
            },
            |p| ShadowItem::LineDecoration(p),
            offset,
        )
    }

    /// Adds a gradient along a line, where it shows.
    pub open spec fn add_linear_gradient(
        self,
        clip_and_scroll: ScrollNodeAndClipChain,
        info: LayoutPrimitiveInfo,
        gradient: Option<LinearGradient<'a>>,
        offset: LayoutVector2D,
    ) -> Self {
        match gradient {
            Some(prim) => self.add_flat_item(clip_and_scroll, info, prim, offset),
            None => self,
        }
    }

    /// Adds a border that is cut into nine parts.
    pub open spec fn add_nine_patch_border(
        self,
        clip_and_scroll: ScrollNodeAndClipChain,
        info: LayoutPrimitiveInfo,
        border: NinePatchBorder,
        widths: SideOffsetsF,
        stops: &'a Vec<GradientStop>,
        draws: bool,
        offset: LayoutVector2D,
    ) -> Self {
        let nine_patch = nine_patch_descriptor(border, widths);
        match border.source {
            NinePatchBorderSource::Image(key) => self.add_flat_item(
                clip_and_scroll,
                info,
                ImageBorder {
                    request: ImageRequest { key, rendering: ImageRendering::Auto },
                    nine_patch,
                    draws,
                },
                offset,
            ),
            NinePatchBorderSource::Gradient(gradient) => self.add_linear_gradient(
                clip_and_scroll,
                info,
                linear_gradient(
                    info,
                    gradient.start_point,
                    gradient.end_point,
                    stops,
                    gradient.extend_mode,
                    nine_patch_stretch_size(border),
                    LayoutSize::Zero,
                    Some(nine_patch),
                    draws,
                ),
                offset,
            ),
            NinePatchBorderSource::RadialGradient(gradient) => self.add_flat_item(
                clip_and_scroll,
                info,
                radial_gradient(
                    info,
                    gradient,
                    stops,
                    nine_patch_stretch_size(border),
                    LayoutSize::Zero,
                    Some(nine_patch),
                    draws,
                ),
                offset,
            ),
        }
    }

    /// Adds a border. One with a style for each side is left to the embedder.
    pub open spec fn add_border(
        self,
        clip_and_scroll: ScrollNodeAndClipChain,
        info: LayoutPrimitiveInfo,
        border_item: BorderDisplayItem,
        stops: &'a Vec<GradientStop>,
        draws: bool,
        offset: LayoutVector2D,
    ) -> Self {
        match border_item.details {
            BorderDetails::NinePatch(border) => self.add_nine_patch_border(
                clip_and_scroll,
                info,
                border,
                border_item.widths,
                stops,
                draws,
                offset,
            ),
            BorderDetails::Normal(_) => self,
        }
    }

    /// Whether a text run can be drawn: its font is known, and is not of size
    /// zero or less.
    pub open spec fn has_font(self, font_instance_key: FontInstanceKey) -> bool {
        self.font_instances@.contains_key(font_instance_key.key())
            && self.font_instances@[font_instance_key.key()].size > 0
    }

    /// The text run of a display item. Its glyphs are placed relative to the
    /// run.
    pub open spec fn text_run(
        self,
        offset: LayoutVector2D,
        prim_info: LayoutPrimitiveInfo,
        font_instance_key: FontInstanceKey,
        text_color: ColorF,
        glyphs: &'a Vec<GlyphInstance>,
        glyph_options: Option<GlyphOptions>,
        draws: bool,
    ) -> TextRun<'a> {
        TextRun {
            glyphs,
            prim_offset: LayoutVector2D::Difference(
                Box::new(LayoutVector2D::OfPoint(Box::new(prim_info.rect.origin()))),
                Box::new(offset),
            ),
            font: run_font(
                &self.font_instances@[font_instance_key.key()],
                self.config.default_font_render_mode,
                text_color,
                glyph_options,
            ),
            draws,
            shadow: None,
        }
    }

    /// Adds a text run, where it can be drawn.
    pub open spec fn add_text(
        self,
        clip_and_scroll: ScrollNodeAndClipChain,
        offset: LayoutVector2D,
        prim_info: LayoutPrimitiveInfo,
        font_instance_key: FontInstanceKey,
        text_color: ColorF,
        glyphs: &'a Vec<GlyphInstance>,
        glyph_options: Option<GlyphOptions>,
        draws: bool,
    ) -> Self {
        if self.has_font(font_instance_key) {
            self.add_item(
                clip_and_scroll,
                prim_info,
                self.text_run(
                    offset,
                    prim_info,
                    font_instance_key,
                    text_color,
                    glyphs,
                    glyph_options,
                    draws,
                ),
                |p| ShadowItem::TextRun(p),
                offset,
            )
        } else {
            self
        }
    }

    /// Adds an image, after the repetition of it is simplified.
    pub open spec fn add_image(
        self,
        clip_and_scroll: ScrollNodeAndClipChain,
        info: LayoutPrimitiveInfo,
        stretch_size: SizeF,
        tile_spacing: SizeF,
        sub_rect: Option<TexelRect>,
        image_key: ImageKey,
        image_rendering: ImageRendering,
        alpha_type: AlphaType,
        color: ColorF,
        draws: bool,
        offset: LayoutVector2D,
    ) -> Self {
        let tiling = Tiling {
            stretch_size: LayoutSize::Value(stretch_size),
            tile_spacing: LayoutSize::Value(tile_spacing),
            rect: info.rect,
        };
        self.add_item(
            clip_and_scroll,
            LayoutPrimitiveInfo { rect: LayoutRect::Simplified(Box::new(tiling)), ..info },
            Image {
                key: image_key,
                tile_spacing: LayoutSize::SimplifiedSpacing(Box::new(tiling)),
                stretch_size: LayoutSize::Value(stretch_size),
                color,
                sub_rect: match sub_rect {
                    Some(texel_rect) => Some(texel_sub_rect(texel_rect)),
                    None => None,
                },
                image_rendering,
                alpha_type,
                draws,
                shadow: None,
            },
            |p| ShadowItem::Image(p),
            offset,
        )
    }

    /// Adds a YUV image.
    pub open spec fn add_yuv_image(
        self,
        clip_and_scroll: ScrollNodeAndClipChain,
        info: LayoutPrimitiveInfo,
        yuv_data: YuvData,
        color_depth: ColorDepth,
        color_space: YuvColorSpace,
        image_rendering: ImageRendering,
        draws: bool,
        offset: LayoutVector2D,
    ) -> Self {
        let (plane_0, plane_1, plane_2) = yuv_planes(yuv_data);
        self.add_flat_item(
            clip_and_scroll,
            info,
            YuvImage {
                color_depth,
                plane_0,
                plane_1,
                plane_2,
                format: yuv_data.get_format(),
                color_space,
                image_rendering,
                draws,
            },
            offset,
        )
    }
}

impl<'a> DisplayListFlattener<'a> {
    /// Adds a rectangle that is filled with a colour. A transparent one is not
    /// drawn, but can be hit: this allows for invisible areas to hit.
    pub fn add_solid_rectangle(
        &mut self,
        clip_and_scroll: ScrollNodeAndClipChain,
        info: &LayoutPrimitiveInfo,
        color: ColorF,
        draws: bool,
        reference_frame_relative_offset: &LayoutVector2D,
    )
        requires
            old(self)@.can_take(!color.a.same(F32::zero()) && draws),
        ensures
            final(self)@ == old(self)@.add_solid_rectangle(
                clip_and_scroll,
                *info,
                color,
                draws,
                *reference_frame_relative_offset,
            ),
    {
        if color.a.equals(F32::zero()) {
            self.add_primitive_to_hit_testing_list(info, clip_and_scroll);
            return;
        }
        self.add_primitive(
            clip_and_scroll,
            info,
            Vec::new(),
            PrimitiveKeyKind::Rectangle { color, draws, shadow: None },
            reference_frame_relative_offset,
        );
    }

    /// Adds a rectangle that clears what is under it.
    pub fn add_clear_rectangle(
        &mut self,
        clip_and_scroll: ScrollNodeAndClipChain,
        info: &LayoutPrimitiveInfo,
        draws: bool,
        reference_frame_relative_offset: &LayoutVector2D,
    )
        requires
            old(self)@.can_take(draws),
        ensures
            final(self)@ == old(self)@.add_clear_rectangle(
                clip_and_scroll,
                *info,
                draws,
                *reference_frame_relative_offset,
            ),
    {
        self.add_primitive(
            clip_and_scroll,
            info,
            Vec::new(),
            PrimitiveKeyKind::Clear { draws, shadow: None },
            reference_frame_relative_offset,
        );
    }

    /// Adds a line decoration. `sizes` are the sizes along the line and across
    /// it of one piece of its mask, where it is drawn with one.
    pub fn add_line(
        &mut self,
        clip_and_scroll: ScrollNodeAndClipChain,
        info: &LayoutPrimitiveInfo,
        wavy_line_thickness: F32,
        orientation: LineOrientation,
        color: ColorF,
        style: LineStyle,
        sizes: Option<(F32, F32)>,
        draws: bool,
        reference_frame_relative_offset: &LayoutVector2D,
    )
        requires
            old(self)@.can_take(draws),
        ensures
            final(self)@ == old(self)@.add_line(
                clip_and_scroll,
                *info,
                wavy_line_thickness,
                orientation,
                color,
                style,
                sizes,
                draws,
                *reference_frame_relative_offset,
            ),
    {
        let mut info = info.copy();
        let ghost given = info;
        let cache_key = match sizes {
            Some((inline_size, block_size)) => {
                let size = match orientation {
                    LineOrientation::Horizontal => SizeF { width: inline_size, height: block_size },
                    LineOrientation::Vertical => SizeF { width: block_size, height: inline_size },
                };

                // If dotted, adjust the clip rect to make sure that no final
                // partial dot is drawn.
                if let LineStyle::Dotted = style {
                    let width = Scalar::WidthOf(Box::new(info.rect.copy().size()));
                    let height = Scalar::HeightOf(Box::new(info.rect.copy().size()));
                    let clip_size = match orientation {
                        LineOrientation::Horizontal => LayoutSize::New(
                            Box::new(round_to_whole_dots(inline_size, width)),
                            Box::new(height),
                        ),
                        LineOrientation::Vertical => LayoutSize::New(
                            Box::new(width),
                            Box::new(round_to_whole_dots(inline_size, height)),
                        ),
                    };
                    let clip_rect = LayoutRect::New(
                        Box::new(info.rect.copy().origin()),
                        Box::new(clip_size),
                    );
                    info =
                    LayoutPrimitiveInfo {
                        rect: info.rect,
                        clip_rect: LayoutRect::IntersectionOrZero(
                            Box::new(clip_rect),
                            Box::new(info.clip_rect),
                        ),
                        is_backface_visible: info.is_backface_visible,
                        tag: info.tag,
                    };
                }
                Some(LineDecorationCacheKey { style, orientation, wavy_line_thickness, size })
            },
            None => None,
        };
        assert(info.clip_rect == line_clip_rect(given, orientation, style, sizes));
        self.add_primitive(
            clip_and_scroll,
            &info,
            Vec::new(),
            LineDecoration { cache_key, color, draws, shadow: None },
            reference_frame_relative_offset,
        );
    }

    /// Makes the primitive of a gradient along a line. If all the stops are
    /// transparent, the gradient adds nothing to the scene, and there is none.
    pub fn create_linear_gradient_prim(
        &self,
        info: &LayoutPrimitiveInfo,
        start_point: PointF,
        end_point: PointF,
        stops: &'a Vec<GradientStop>,
        extend_mode: ExtendMode,
        stretch_size: LayoutSize,
        tile_spacing: LayoutSize,
        nine_patch: Option<NinePatchDescriptor>,
        draws: bool,
    ) -> (r: Option<LinearGradient<'a>>)
        ensures
            r == linear_gradient(
                *info,
                start_point,
                end_point,
                stops,
                extend_mode,
                stretch_size,
                tile_spacing,
                nine_patch,
                draws,
            ),
    {
        if !any_stop_shows(stops) {
            return None;
        }

        // If a gradient and its stops are both given in reverse, the result
        // should be the same. So a reference orientation of the gradient line is
        // chosen, and the ends are exchanged where it runs the other way.
        let reverse_stops = start_point.x.exceeds(end_point.x) || (start_point.x.equals(
            end_point.x,
        ) && start_point.y.exceeds(end_point.y));
        let (sp, ep) = if reverse_stops {
            (end_point, start_point)
        } else {
            (start_point, end_point)
        };
        Some(
            LinearGradient {
                extend_mode,
                start_point: sp,
                end_point: ep,
                stretch_size: stretch_size.copy(),
                tile_spacing: LayoutSize::SimplifiedSpacing(
                    Box::new(Tiling { stretch_size, tile_spacing, rect: info.rect.copy() }),
                ),
                stops,
                reverse_stops,
                nine_patch,
                draws,
            },
        )
    }

    /// Makes the primitive of a gradient around a point.
    pub fn create_radial_gradient_prim(
        &self,
        info: &LayoutPrimitiveInfo,
        center: PointF,
        start_radius: Scalar,
        end_radius: Scalar,
        ratio_xy: Scalar,
        stops: &'a Vec<GradientStop>,
        extend_mode: ExtendMode,
        stretch_size: LayoutSize,
        tile_spacing: LayoutSize,
        nine_patch: Option<NinePatchDescriptor>,
        draws: bool,
    ) -> (r: RadialGradient<'a>)
        ensures
            r == (RadialGradient {
                extend_mode,
                center,
                params: RadialGradientParams { start_radius, end_radius, ratio_xy },
                stretch_size,
                tile_spacing: LayoutSize::SimplifiedSpacing(
                    Box::new(Tiling { stretch_size, tile_spacing, rect: info.rect }),
                ),
                nine_patch,
                stops,
                draws,
            }),
    {
        RadialGradient {
            extend_mode,
            center,
            params: RadialGradientParams { start_radius, end_radius, ratio_xy },
            stretch_size: stretch_size.copy(),
            tile_spacing: LayoutSize::SimplifiedSpacing(
                Box::new(Tiling { stretch_size, tile_spacing, rect: info.rect.copy() }),
            ),
            nine_patch,
            stops,
            draws,
        }
    }

    /// Makes the primitive of a gradient around a point, as a display list gives
    /// it.
    pub fn create_given_radial_gradient_prim(
        &self,
        info: &LayoutPrimitiveInfo,
        gradient: &RadialGradientSpec,
        stops: &'a Vec<GradientStop>,
        stretch_size: LayoutSize,
        tile_spacing: LayoutSize,
        nine_patch: Option<NinePatchDescriptor>,
        draws: bool,
    ) -> (r: RadialGradient<'a>)
        ensures
            r == radial_gradient(
                *info,
                *gradient,
                stops,
                stretch_size,
                tile_spacing,
                nine_patch,
                draws,
            ),
    {
        let start_radius = Scalar::Product(
            Box::new(Scalar::Value(gradient.start_offset)),
            Box::new(Scalar::Value(gradient.radius.width)),
        );
        let end_radius = Scalar::Product(
            Box::new(Scalar::Value(gradient.end_offset)),
            Box::new(Scalar::Value(gradient.radius.width)),
        );
        let ratio_xy = Scalar::Quotient(
            Box::new(Scalar::Value(gradient.radius.width)),
            Box::new(Scalar::Value(gradient.radius.height)),
        );
        self.create_radial_gradient_prim(
            info,
            gradient.center,
            start_radius,
            end_radius,
            ratio_xy,
            stops,
            gradient.extend_mode,
            stretch_size,
            tile_spacing,
            nine_patch,
            draws,
        )
    }

    /// Adds a gradient along a line, where it shows.
    pub fn add_linear_gradient(
        &mut self,
        clip_and_scroll: ScrollNodeAndClipChain,
        info: &LayoutPrimitiveInfo,
        gradient: Option<LinearGradient<'a>>,
        reference_frame_relative_offset: &LayoutVector2D,
    )
        requires
            gradient matches Some(prim) && prim.draws ==> old(self)@.sc_stack.len() > 0,
        ensures
            final(self)@ == old(self)@.add_linear_gradient(
                clip_and_scroll,
                *info,
                gradient,
                *reference_frame_relative_offset,
            ),
    {
        if let Some(prim) = gradient {
            self.add_nonshadowable_primitive(
                clip_and_scroll,
                info,
                Vec::new(),
                prim,
                reference_frame_relative_offset,
            );
        }
    }

    /// Adds a border. One with a style for each side is handed back: it is the
    /// embedder who turns it into primitives.
    pub fn add_border(
        &mut self,
        clip_and_scroll: ScrollNodeAndClipChain,
        info: &LayoutPrimitiveInfo,
        border_item: &BorderDisplayItem,
        gradient_stops: &'a Vec<GradientStop>,
        draws: bool,
        reference_frame_relative_offset: &LayoutVector2D,
    ) -> (r: Option<NormalBorderRequest>)
        requires
            border_draws(*border_item, gradient_stops@, draws) ==> old(self)@.sc_stack.len() > 0,
        ensures
            final(self)@ == old(self)@.add_border(
                clip_and_scroll,
                *info,
                *border_item,
                gradient_stops,
                draws,
                *reference_frame_relative_offset,
            ),
            r == (match border_item.details {
                BorderDetails::NinePatch(_) => None,
                BorderDetails::Normal(border) => Some(
                    NormalBorderRequest {
                        clip_and_scroll,
                        info: *info,
                        border,
                        widths: border_item.widths,
                        reference_frame_relative_offset: *reference_frame_relative_offset,
                    },
                ),
            }),
    {
        match border_item.details {
            BorderDetails::NinePatch(border) => {
                let nine_patch = NinePatchDescriptor {
                    width: border.width,
                    height: border.height,
                    slice: border.slice,
                    fill: border.fill,
                    repeat_horizontal: border.repeat_horizontal,
                    repeat_vertical: border.repeat_vertical,
                    outset: border.outset,
                    widths: border_item.widths,
                };
                let stretch_size = LayoutSize::New(
                    Box::new(Scalar::OfInt(border.height)),
                    Box::new(Scalar::OfInt(border.width)),
                );
                match border.source {
                    NinePatchBorderSource::Image(image_key) => {
                        self.add_nonshadowable_primitive(
                            clip_and_scroll,
                            info,
                            Vec::new(),
                            ImageBorder {
                                request: ImageRequest {
                                    key: image_key,
                                    rendering: ImageRendering::Auto,
                                },
                                nine_patch,
                                draws,
                            },
                            reference_frame_relative_offset,
                        );
                    },
                    NinePatchBorderSource::Gradient(gradient) => {
                        let prim = self.create_linear_gradient_prim(
                            info,
                            gradient.start_point,
                            gradient.end_point,
                            gradient_stops,
                            gradient.extend_mode,
                            stretch_size,
                            LayoutSize::Zero,
                            Some(nine_patch),
                            draws,
                        );
                        self.add_linear_gradient(
                            clip_and_scroll,
                            info,
                            prim,
                            reference_frame_relative_offset,
                        );
                    },
                    NinePatchBorderSource::RadialGradient(gradient) => {
                        let prim = self.create_given_radial_gradient_prim(
                            info,
                            &gradient,
                            gradient_stops,
                            stretch_size,
                            LayoutSize::Zero,
                            Some(nine_patch),
                            draws,
                        );
                        self.add_nonshadowable_primitive(
                            clip_and_scroll,
                            info,
                            Vec::new(),
                            prim,
                            reference_frame_relative_offset,
                        );
                    },
                }
                None
            },
            BorderDetails::Normal(border) => Some(
                NormalBorderRequest {
                    clip_and_scroll,
                    info: info.copy(),
                    border,
                    widths: border_item.widths,
                    reference_frame_relative_offset: reference_frame_relative_offset.copy(),
                },
            ),
        }
    }

    /// Adds a text run. One whose font is not known, or has no size, is left
    /// out.
    pub fn add_text(
        &mut self,
        clip_and_scroll: ScrollNodeAndClipChain,
        offset: &LayoutVector2D,
        prim_info: &LayoutPrimitiveInfo,
        font_instance_key: &FontInstanceKey,
        text_color: &ColorF,
        glyphs: &'a Vec<GlyphInstance>,
        glyph_options: Option<GlyphOptions>,
        draws: bool,
    )
        requires
            old(self)@.can_take(old(self)@.has_font(*font_instance_key) && draws),
        ensures
            final(self)@ == old(self)@.add_text(
                clip_and_scroll,
                *offset,
                *prim_info,
                *font_instance_key,
                *text_color,
                glyphs,
                glyph_options,
                draws,
            ),
    {
        broadcast use vstd::std_specs::hash::group_hash_axioms;

        let font_instances = self.font_instances;
        let font_instance: &'a BaseFontInstance = match font_instances.get(
            &font_instance_key.key(),
        ) {
            Some(instance) => instance,
            None => {
                return;
            },
        };
        if font_instance.size <= 0 {
            return;
        }
        let (glyph_limit, flags) = match glyph_options {
            Some(options) => (Some(options.render_mode), font_instance.flags | options.flags),
            None => (None, font_instance.flags),
        };
        let font = FontInstance {
            font_key: font_instance.font_key,
            size: font_instance.size,
            color: *text_color,
            bg_color: font_instance.bg_color,
            render_mode: LimitedRenderMode {
                mode: self.config.default_font_render_mode,
                font_limit: font_instance.render_mode,
                glyph_limit,
            },
            flags,
            synthetic_italics: font_instance.synthetic_italics,
            platform_options: font_instance.platform_options,
            variations: &font_instance.variations,
        };
        let prim_offset = LayoutVector2D::Difference(
            Box::new(LayoutVector2D::OfPoint(Box::new(prim_info.rect.copy().origin()))),
            Box::new(offset.copy()),
        );
        self.add_primitive(
            clip_and_scroll,
            prim_info,
            Vec::new(),
            TextRun { glyphs, prim_offset, font, draws, shadow: None },
            offset,
        );
    }

    /// Adds an image, after the repetition of it is simplified.
    pub fn add_image(
        &mut self,
        clip_and_scroll: ScrollNodeAndClipChain,
        info: &LayoutPrimitiveInfo,
        stretch_size: SizeF,
        tile_spacing: SizeF,
        sub_rect: Option<TexelRect>,
        image_key: ImageKey,
        image_rendering: ImageRendering,
        alpha_type: AlphaType,
        color: ColorF,
        draws: bool,
        reference_frame_relative_offset: &LayoutVector2D,
    )
        requires
            old(self)@.can_take(draws),
        ensures
            final(self)@ == old(self)@.add_image(
                clip_and_scroll,
                *info,
                stretch_size,
                tile_spacing,
                sub_rect,
                image_key,
                image_rendering,
                alpha_type,
                color,
                draws,
                *reference_frame_relative_offset,
            ),
    {
        let tiling = Tiling {
            stretch_size: LayoutSize::Value(stretch_size),
            tile_spacing: LayoutSize::Value(tile_spacing),
            rect: info.rect.copy(),
        };
        let simplified = LayoutPrimitiveInfo {
            rect: LayoutRect::Simplified(Box::new(tiling.copy())),
            clip_rect: info.clip_rect.copy(),
            is_backface_visible: info.is_backface_visible,
            tag: info.tag,
        };
        let texels = match sub_rect {
            Some(texel_rect) => Some(
                DeviceIntRect {
                    x: Scalar::Value(texel_rect.uv0.x),
                    y: Scalar::Value(texel_rect.uv0.y),
                    width: Scalar::Difference(
                        Box::new(Scalar::Value(texel_rect.uv1.x)),
                        Box::new(Scalar::Value(texel_rect.uv0.x)),
                    ),
                    height: Scalar::Difference(
                        Box::new(Scalar::Value(texel_rect.uv1.y)),
                        Box::new(Scalar::Value(texel_rect.uv0.y)),
                    ),
                },
            ),
            None => None,
        };
        self.add_primitive(
            clip_and_scroll,
            &simplified,
            Vec::new(),
            Image {
                key: image_key,
                tile_spacing: LayoutSize::SimplifiedSpacing(Box::new(tiling)),
                stretch_size: LayoutSize::Value(stretch_size),
                color,
                sub_rect: texels,
                image_rendering,
                alpha_type,
                draws,
                shadow: None,
            },
            reference_frame_relative_offset,
        );
    }

    /// Adds a YUV image.
    pub fn add_yuv_image(
        &mut self,
        clip_and_scroll: ScrollNodeAndClipChain,
        info: &LayoutPrimitiveInfo,
        yuv_data: YuvData,
        color_depth: ColorDepth,
        color_space: YuvColorSpace,
        image_rendering: ImageRendering,
        draws: bool,
        reference_frame_relative_offset: &LayoutVector2D,
    )
        requires
            draws ==> old(self)@.sc_stack.len() > 0,
        ensures
            final(self)@ == old(self)@.add_yuv_image(
                clip_and_scroll,
                *info,
                yuv_data,
                color_depth,
                color_space,
                image_rendering,
                draws,
                *reference_frame_relative_offset,
            ),
    {
        let format = yuv_data.get_format();
        let (plane_0, plane_1, plane_2) = match yuv_data {
            YuvData::NV12(plane_0, plane_1) => (plane_0, plane_1, ImageKey::dummy()),
            YuvData::PlanarYCbCr(plane_0, plane_1, plane_2) => (plane_0, plane_1, plane_2),
            YuvData::InterleavedYCbCr(plane_0) => (plane_0, ImageKey::dummy(), ImageKey::dummy()),
        };
        self.add_nonshadowable_primitive(
            clip_and_scroll,
            info,
            Vec::new(),
            YuvImage {
                color_depth,
                plane_0,
                plane_1,
                plane_2,
                format,
                color_space,
                image_rendering,
                draws,
            },
            reference_frame_relative_offset,
        );
    }
}

/// `length`, rounded down to a multiple of `inline_size`.
fn round_to_whole_dots(inline_size: F32, length: Scalar) -> (r: Scalar)
    ensures
        r == whole_dots(inline_size, length),
{
    Scalar::Product(
        Box::new(Scalar::Value(inline_size)),
        Box::new(
            Scalar::Floor(
                Box::new(
                    Scalar::Quotient(Box::new(length), Box::new(Scalar::Value(inline_size))),
                ),
            ),
        ),
    )
}

/// Whether any of the stops has a colour that is not transparent.
fn any_stop_shows(stops: &Vec<GradientStop>) -> (r: bool)
    ensures
        r == some_stop_shows(stops@),
{
    let mut i: usize = 0;
    while i < stops.len()
        invariant
            i <= stops@.len(),
            forall|j: int|
                0 <= j < i ==> !(#[trigger] stops@[j]).color.a.above(F32::zero()),
        decreases stops@.len() - i,
    {
        if stops[i].color.a.exceeds(F32::zero()) {
            return true;
        }
        i = i + 1;
    }
    false
}

} // verus!
