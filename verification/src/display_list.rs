//! Display lists, and the scene that they belong to.
use std::collections::HashMap;

use vstd::prelude::*;

use crate::clip_store::{BorderRadius, ComplexClipRegion, ImageMask};
use crate::ids::{
    ApiClipChainId, ClipId, ExternalScrollId, ImageKey, PipelineId, SpatialId,
};
use crate::layout::{
    ColorF, F32, LayoutRect, LayoutVector2D, PointF, RectF, SizeF, VectorF,
};
use crate::picture::{FilterOp, MixBlendMode, RasterSpace};
use crate::primitives::{
    AlphaType, ColorDepth, ExtendMode, GlyphInstance, GlyphOptions, GradientStop, ImageRendering,
    ItemTag, LayoutPrimitiveInfo, LineOrientation, LineStyle, NormalBorder, RepeatMode, Shadow,
    SideOffsetsF, SideOffsetsI, YuvColorSpace, YuvData,
};
use crate::spatial_tree::{
    ReferenceFrameKind, ScrollSensitivity, SourceTransform, StickyMargins, StickyOffsetBounds,
    TransformStyle,
};

verus! {

/// The positioning node and the clip of a display item.
#[derive(Clone, Copy, Debug)]
pub struct SpaceAndClipInfo {
    pub spatial_id: SpatialId,
    pub clip_id: ClipId,
}

/// A font instance, by name.
#[derive(Clone, Copy, Debug)]
pub struct FontInstanceKey {
    pub namespace: u32,
    pub index: u32,
}

impl FontInstanceKey {
    /// The number that stands for this instance as a key.
    pub open spec fn spec_key(self) -> u64 {
        (self.namespace * 0x1_0000_0000 + self.index) as u64
    }

    #[verifier::when_used_as_spec(spec_key)]
    pub fn key(self) -> (r: u64)
        ensures
            r == self.spec_key(),
    {
        self.namespace as u64 * 0x1_0000_0000 + self.index as u64
    }
}

/// A gradient along a line.
#[derive(Clone, Copy, Debug)]
pub struct Gradient {
    pub start_point: PointF,
    pub end_point: PointF,
    pub extend_mode: ExtendMode,
}

/// A gradient around a point.
#[derive(Clone, Copy, Debug)]
pub struct RadialGradientSpec {
    pub center: PointF,
    pub radius: SizeF,
    pub start_offset: F32,
    pub end_offset: F32,
    pub extend_mode: ExtendMode,
}

/// What a nine-patch border is cut from.
#[derive(Clone, Copy, Debug)]
pub enum NinePatchBorderSource {
    Image(ImageKey),
    Gradient(Gradient),
    RadialGradient(RadialGradientSpec),
}

/// A border that is cut into nine parts.
#[derive(Clone, Copy, Debug)]
pub struct NinePatchBorder {
    pub source: NinePatchBorderSource,
    pub width: i32,
    pub height: i32,
    pub slice: SideOffsetsI,
    pub fill: bool,
    pub repeat_horizontal: RepeatMode,
    pub repeat_vertical: RepeatMode,
    pub outset: SideOffsetsF,
}

/// A border.
#[derive(Clone, Copy, Debug)]
pub enum BorderDetails {
    Normal(NormalBorder),
    NinePatch(NinePatchBorder),
}

/// A border with its widths.
#[derive(Clone, Copy, Debug)]
pub struct BorderDisplayItem {
    pub widths: SideOffsetsF,
    pub details: BorderDetails,
}

/// Whether a box shadow is drawn around its box or inside it.
#[derive(Clone, Copy, Debug)]
pub enum BoxShadowClipMode {
    Outset,
    Inset,
}

/// The shadow of a box.
#[derive(Clone, Copy, Debug)]
pub struct BoxShadowDisplayItem {
    pub box_bounds: RectF,
    pub offset: VectorF,
    pub color: ColorF,
    pub blur_radius: F32,
    pub spread_radius: F32,
    pub border_radius: BorderRadius,
    pub clip_mode: BoxShadowClipMode,
}

/// A stacking context. The mix-blend mode is absent where it is the normal one.
#[derive(Clone, Copy, Debug)]
pub struct StackingContext {
    pub transform_style: TransformStyle,
    pub mix_blend_mode: Option<MixBlendMode>,
    pub clip_id: Option<ClipId>,
    pub raster_space: RasterSpace,
    pub cache_tiles: bool,
}

/// A reference frame: what it holds is placed relative to it.
#[derive(Clone, Copy, Debug)]
pub struct ReferenceFrame {
    pub id: SpatialId,
    pub kind: ReferenceFrameKind,
    pub transform_style: TransformStyle,
    pub transform: SourceTransform,
}

/// What a display item is. Items that draw say, in `draws`, whether the
/// renderer finds anything visible in the primitive that they become.
#[derive(Debug)]
pub enum SpecificDisplayItem {
    Image {
        stretch_size: SizeF,
        tile_spacing: SizeF,
        image_key: ImageKey,
        image_rendering: ImageRendering,
        alpha_type: AlphaType,
        color: ColorF,
        draws: bool,
    },
    YuvImage {
        yuv_data: YuvData,
        color_depth: ColorDepth,
        color_space: YuvColorSpace,
        image_rendering: ImageRendering,
        draws: bool,
    },
    Text {
        font_key: FontInstanceKey,
        color: ColorF,
        glyphs: Vec<GlyphInstance>,
        glyph_options: Option<GlyphOptions>,
        draws: bool,
    },
    Rectangle { color: ColorF, draws: bool },
    ClearRectangle { draws: bool },
    /// `sizes` are the sizes along the line and across it of one piece of its
    /// mask, where the line is drawn with one.
    Line {
        wavy_line_thickness: F32,
        orientation: LineOrientation,
        color: ColorF,
        style: LineStyle,
        sizes: Option<(F32, F32)>,
        draws: bool,
    },
    Gradient {
        gradient: Gradient,
        stops: Vec<GradientStop>,
        tile_size: SizeF,
        tile_spacing: SizeF,
        draws: bool,
    },
    RadialGradient {
        gradient: RadialGradientSpec,
        stops: Vec<GradientStop>,
        tile_size: SizeF,
        tile_spacing: SizeF,
        draws: bool,
    },
    BoxShadow(BoxShadowDisplayItem),
    Border { border: BorderDisplayItem, stops: Vec<GradientStop>, draws: bool },
    PushStackingContext { stacking_context: StackingContext, filters: Vec<FilterOp> },
    PopStackingContext,
    PushReferenceFrame(ReferenceFrame),
    PopReferenceFrame,
    Iframe { pipeline_id: PipelineId },
    Clip { id: ClipId, image_mask: Option<ImageMask>, complex_clips: Vec<ComplexClipRegion> },
    ClipChain { id: ApiClipChainId, parent: Option<ApiClipChainId>, clip_ids: Vec<ClipId> },
    ScrollFrame {
        clip_id: ClipId,
        scroll_frame_id: SpatialId,
        external_id: Option<ExternalScrollId>,
        scroll_sensitivity: ScrollSensitivity,
        image_mask: Option<ImageMask>,
        complex_clips: Vec<ComplexClipRegion>,
    },
    StickyFrame {
        id: SpatialId,
        margins: StickyMargins,
        vertical_offset_bounds: StickyOffsetBounds,
        horizontal_offset_bounds: StickyOffsetBounds,
        previously_applied_offset: VectorF,
    },
    PushShadow(Shadow),
    PopAllShadows,
    /// Marks that the display list parser uses; they draw nothing.
    SetGradientStops,
    PushCacheMarker,
    PopCacheMarker,
}

/// An item of a display list.
#[derive(Debug)]
pub struct DisplayItem {
    pub rect: RectF,
    pub clip_rect: RectF,
    pub is_backface_visible: bool,
    pub tag: Option<ItemTag>,
    pub space_and_clip: SpaceAndClipInfo,
    pub item: SpecificDisplayItem,
}

impl DisplayItem {
    /// Whether the item ends what an earlier item began.
    pub open spec fn spec_is_pop(self) -> bool {
        self.item is PopReferenceFrame || self.item is PopStackingContext
    }

    pub fn is_pop(&self) -> (r: bool)
        ensures
            r == self.spec_is_pop(),
    {
        match &self.item {
            SpecificDisplayItem::PopReferenceFrame => true,
            SpecificDisplayItem::PopStackingContext => true,
            _ => false,
        }
    }

    /// The layout of the item, moved by the offset of its reference frame.
    pub open spec fn spec_get_layout_primitive_info(
        self,
        offset: LayoutVector2D,
    ) -> LayoutPrimitiveInfo {
        LayoutPrimitiveInfo {
            rect: LayoutRect::Value(self.rect).translate(offset),
            clip_rect: LayoutRect::Value(self.clip_rect).translate(offset),
            is_backface_visible: self.is_backface_visible,
            tag: self.tag,
        }
    }

    pub fn get_layout_primitive_info(&self, offset: &LayoutVector2D) -> (r: LayoutPrimitiveInfo)
        ensures
            r == self.spec_get_layout_primitive_info(*offset),
    {
        LayoutPrimitiveInfo {
            rect: LayoutRect::Value(self.rect).translate(offset.copy()),
            clip_rect: LayoutRect::Value(self.clip_rect).translate(offset.copy()),
            is_backface_visible: self.is_backface_visible,
            tag: self.tag,
        }
    }
}

/// A document: its display list, and the space that it is laid out in.
#[derive(Debug)]
pub struct ScenePipeline {
    pub pipeline_id: PipelineId,
    pub viewport_size: SizeF,
    pub content_size: SizeF,
    pub background_color: Option<ColorF>,
    pub display_list: Vec<DisplayItem>,
}

/// The documents that are shown, each under the key of its pipeline.
pub struct Scene {
    pub root_pipeline_id: Option<PipelineId>,
    pub pipelines: HashMap<u64, ScenePipeline>,
    pub pipeline_epochs: HashMap<u64, u32>,
}

} // verus!
