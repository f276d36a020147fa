//! The primitives that a display list draws, and how they are interned.
use vstd::prelude::*;

use crate::clip_store::ClipItemKey;
use crate::ids::{ImageKey, RequestIndex};
use crate::layout::{
    ColorF, F32, LayoutPoint, LayoutRect, LayoutSize, LayoutVector2D, PointF, Scalar, SizeF,
    VectorF,
};
use crate::picture::{
    PictureCompositeKey, PrimitiveInstanceKind, PrimitiveRecord, PrimitiveStore,
    PrimitiveStoreContents,
};

verus! {

/// What a hit on a primitive is answered with.
#[derive(Clone, Copy, Debug)]
pub struct ItemTag {
    pub value: u64,
    pub flags: u16,
}

/// What all primitives have: where they are, what they are clipped to, whether
/// they show their back, and how they are hit.
#[derive(Debug)]
pub struct LayoutPrimitiveInfo {
    pub rect: LayoutRect,
    pub clip_rect: LayoutRect,
    pub is_backface_visible: bool,
    pub tag: Option<ItemTag>,
}

impl LayoutPrimitiveInfo {
    /// The same again.
    pub fn copy(&self) -> (r: LayoutPrimitiveInfo)
        ensures
            r == *self,
    {
        LayoutPrimitiveInfo {
            rect: self.rect.copy(),
            clip_rect: self.clip_rect.copy(),
            is_backface_visible: self.is_backface_visible,
            tag: self.tag,
        }
    }
}

/// A shadow, which applies to the primitives that follow it.
#[derive(Clone, Copy, Debug)]
pub struct Shadow {
    pub offset: VectorF,
    pub color: ColorF,
    pub blur_radius: F32,
    pub should_inflate: bool,
}

/// Makes an instance of a primitive whose data is named by a handle.
pub trait AsInstanceKind<H> {
    fn as_instance_kind(
        &self,
        data_handle: H,
        prim_store: &mut PrimitiveStore,
        reference_frame_relative_offset: LayoutVector2D,
    ) -> PrimitiveInstanceKind;
}

/// Makes the primitive that stands for this one in a shadow.
pub trait CreateShadow: Sized {
    /// This primitive, as `shadow` shows it.
    spec fn shadowed(&self, shadow: Shadow) -> Self;

    fn create_shadow(&self, shadow: &Shadow) -> (r: Self)
        ensures
            r == self.shadowed(*shadow),
    ;
}

/// Tells whether a primitive draws anything.
pub trait IsVisible {
    /// Whether it does.
    spec fn visible(&self) -> bool;

    fn is_visible(&self) -> (r: bool)
        ensures
            r == self.visible(),
    ;
}

/// A primitive whose data can be interned.
pub trait Internable<'a>: Sized {
    /// What is interned.
    spec fn key(self) -> Primitive<'a>;

    fn into_key(self) -> (r: Primitive<'a>)
        ensures
            r == self.key(),
    ;
}

/// How an image is scaled.
#[derive(Clone, Copy, Debug)]
pub enum ImageRendering {
    Auto,
    CrispEdges,
    Pixelated,
}

/// How the alpha of an image is stored.
#[derive(Clone, Copy, Debug)]
pub enum AlphaType {
    Alpha,
    PremultipliedAlpha,
}

/// A part of an image, in texels.
#[derive(Clone, Copy, Debug)]
pub struct TexelRect {
    pub uv0: PointF,
    pub uv1: PointF,
}

/// A rectangle of device pixels: each number is cut to an integer.
#[derive(Debug)]
pub struct DeviceIntRect {
    pub x: Scalar,
    pub y: Scalar,
    pub width: Scalar,
    pub height: Scalar,
}

impl DeviceIntRect {
    /// The same again.
    pub fn copy(&self) -> (r: DeviceIntRect)
        ensures
            r == *self,
    {
        DeviceIntRect {
            x: self.x.copy(),
            y: self.y.copy(),
            width: self.width.copy(),
            height: self.height.copy(),
        }
    }
}

/// An image.
#[derive(Debug)]
pub struct Image {
    pub key: ImageKey,
    pub tile_spacing: LayoutSize,
    pub stretch_size: LayoutSize,
    pub color: ColorF,
    pub sub_rect: Option<DeviceIntRect>,
    pub image_rendering: ImageRendering,
    pub alpha_type: AlphaType,
    pub draws: bool,
    pub shadow: Option<Shadow>,
}

impl Image {
    /// The same image again.
    pub fn copy(&self) -> (r: Image)
        ensures
            r == *self,
    {
        Image {
            key: self.key,
            tile_spacing: self.tile_spacing.copy(),
            stretch_size: self.stretch_size.copy(),
            color: self.color,
            sub_rect: match &self.sub_rect {
                Some(rect) => Some(rect.copy()),
                None => None,
            },
            image_rendering: self.image_rendering,
            alpha_type: self.alpha_type,
            draws: self.draws,
            shadow: self.shadow,
        }
    }
}

/// The bits per channel of a YUV image.
#[derive(Clone, Copy, Debug)]
pub enum ColorDepth {
    Color8,
    Color10,
    Color12,
    Color16,
}

/// The colour space of a YUV image.
#[derive(Clone, Copy, Debug)]
pub enum YuvColorSpace {
    Rec601,
    Rec709,
}

/// How the planes of a YUV image are laid out.
#[derive(Clone, Copy, Debug)]
pub enum YuvFormat {
    NV12,
    PlanarYCbCr,
    InterleavedYCbCr,
}

/// The planes of a YUV image.
#[derive(Clone, Copy, Debug)]
pub enum YuvData {
    NV12(ImageKey, ImageKey),
    PlanarYCbCr(ImageKey, ImageKey, ImageKey),
    InterleavedYCbCr(ImageKey),
}

impl YuvData {
    pub open spec fn spec_get_format(self) -> YuvFormat {
        match self {
            YuvData::NV12(..) => YuvFormat::NV12,
            YuvData::PlanarYCbCr(..) => YuvFormat::PlanarYCbCr,
            YuvData::InterleavedYCbCr(..) => YuvFormat::InterleavedYCbCr,
        }
    }

    /// The layout of the planes.
    #[verifier::when_used_as_spec(spec_get_format)]
    pub fn get_format(self) -> (r: YuvFormat)
        ensures
            r == self.spec_get_format(),
    {
        match self {
            YuvData::NV12(..) => YuvFormat::NV12,
            YuvData::PlanarYCbCr(..) => YuvFormat::PlanarYCbCr,
            YuvData::InterleavedYCbCr(..) => YuvFormat::InterleavedYCbCr,
        }
    }
}

/// A YUV image: always three planes, the missing ones by the dummy key.
#[derive(Clone, Copy, Debug)]
pub struct YuvImage {
    pub color_depth: ColorDepth,
    pub plane_0: ImageKey,
    pub plane_1: ImageKey,
    pub plane_2: ImageKey,
    pub format: YuvFormat,
    pub color_space: YuvColorSpace,
    pub image_rendering: ImageRendering,
    pub draws: bool,
}

/// The direction of a line decoration.
#[derive(Clone, Copy, Debug)]
pub enum LineOrientation {
    Vertical,
    Horizontal,
}

/// The style of a line decoration.
#[derive(Clone, Copy, Debug)]
pub enum LineStyle {
    Solid,
    Dotted,
    Dashed,
    Wavy,
}

/// What line decorations with the same mask have in common. The thickness and
/// the size are rounded to app units where the key is used.
#[derive(Clone, Copy, Debug)]
pub struct LineDecorationCacheKey {
    pub style: LineStyle,
    pub orientation: LineOrientation,
    pub wavy_line_thickness: F32,
    pub size: SizeF,
}

/// A line decoration.
#[derive(Clone, Copy, Debug)]
pub struct LineDecoration {
    pub cache_key: Option<LineDecorationCacheKey>,
    pub color: ColorF,
    pub draws: bool,
    pub shadow: Option<Shadow>,
}

/// Numbers for the four sides of a box.
#[derive(Clone, Copy, Debug)]
pub struct SideOffsetsF {
    pub top: F32,
    pub right: F32,
    pub bottom: F32,
    pub left: F32,
}

/// Whole numbers for the four sides of a box.
#[derive(Clone, Copy, Debug)]
pub struct SideOffsetsI {
    pub top: i32,
    pub right: i32,
    pub bottom: i32,
    pub left: i32,
}

/// A border with a style for each side, which the embedder keeps, by its
/// number.
#[derive(Clone, Copy, Debug)]
pub struct NormalBorder {
    pub number: u64,
}

/// A border with a style for each side, as a primitive.
#[derive(Clone, Copy, Debug)]
pub struct NormalBorderPrim {
    pub border: NormalBorder,
    pub widths: SideOffsetsF,
    pub draws: bool,
    pub shadow: Option<Shadow>,
}

/// A rectangle: filled with a colour, or cleared.
#[derive(Clone, Copy, Debug)]
pub enum PrimitiveKeyKind {
    Rectangle { color: ColorF, draws: bool, shadow: Option<Shadow> },
    Clear { draws: bool, shadow: Option<Shadow> },
}

/// How the edges of a nine-patch border are filled.
#[derive(Clone, Copy, Debug)]
pub enum RepeatMode {
    Stretch,
    Repeat,
    Round,
    Space,
}

/// How an image is cut into a border.
#[derive(Clone, Copy, Debug)]
pub struct NinePatchDescriptor {
    pub width: i32,
    pub height: i32,
    pub slice: SideOffsetsI,
    pub fill: bool,
    pub repeat_horizontal: RepeatMode,
    pub repeat_vertical: RepeatMode,
    pub outset: SideOffsetsF,
    pub widths: SideOffsetsF,
}

/// A request for an image, whole.
#[derive(Clone, Copy, Debug)]
pub struct ImageRequest {
    pub key: ImageKey,
    pub rendering: ImageRendering,
}

/// A border that is cut from an image.
#[derive(Clone, Copy, Debug)]
pub struct ImageBorder {
    pub request: ImageRequest,
    pub nine_patch: NinePatchDescriptor,
    pub draws: bool,
}

/// How a gradient goes on beyond its ends.
#[derive(Clone, Copy, Debug)]
pub enum ExtendMode {
    Clamp,
    Repeat,
}

/// A colour at a place of a gradient.
#[derive(Clone, Copy, Debug)]
pub struct GradientStop {
    pub offset: F32,
    pub color: ColorF,
}

/// A gradient along a line.
#[derive(Debug)]
pub struct LinearGradient<'a> {
    pub extend_mode: ExtendMode,
    pub start_point: PointF,
    pub end_point: PointF,
    pub stretch_size: LayoutSize,
    pub tile_spacing: LayoutSize,
    pub stops: &'a Vec<GradientStop>,
    pub reverse_stops: bool,
    pub nine_patch: Option<NinePatchDescriptor>,
    pub draws: bool,
}

/// The radii of a radial gradient.
#[derive(Debug)]
pub struct RadialGradientParams {
    pub start_radius: Scalar,
    pub end_radius: Scalar,
    pub ratio_xy: Scalar,
}

/// A gradient around a point.
#[derive(Debug)]
pub struct RadialGradient<'a> {
    pub extend_mode: ExtendMode,
    pub center: PointF,
    pub params: RadialGradientParams,
    pub stretch_size: LayoutSize,
    pub tile_spacing: LayoutSize,
    pub nine_patch: Option<NinePatchDescriptor>,
    pub stops: &'a Vec<GradientStop>,
    pub draws: bool,
}

/// A glyph, where the display list places it.
#[derive(Clone, Copy, Debug)]
pub struct GlyphInstance {
    pub index: u32,
    pub point: PointF,
}

/// A glyph, where its text run places it.
#[derive(Debug)]
pub struct PlacedGlyph {
    pub index: u32,
    pub point: LayoutPoint,
}

/// How glyphs are antialiased.
#[derive(Clone, Copy, Debug)]
pub enum FontRenderMode {
    Mono,
    Alpha,
    Subpixel,
}

/// A render mode, limited by that of a font and then by that of a text run.
#[derive(Clone, Copy, Debug)]
pub struct LimitedRenderMode {
    pub mode: FontRenderMode,
    pub font_limit: FontRenderMode,
    pub glyph_limit: Option<FontRenderMode>,
}

/// Options of a text run.
#[derive(Clone, Copy, Debug)]
pub struct GlyphOptions {
    pub render_mode: FontRenderMode,
    pub flags: u32,
}

/// A variation of a font.
#[derive(Clone, Copy, Debug)]
pub struct FontVariation {
    pub tag: u32,
    pub value: F32,
}

/// Names a font.
#[derive(Clone, Copy, Debug)]
pub struct FontKey {
    pub namespace: u32,
    pub index: u32,
}

/// A colour in bytes.
#[derive(Clone, Copy, Debug)]
pub struct ColorU {
    pub r: u8,
    pub g: u8,
    pub b: u8,
    pub a: u8,
}

/// A font at a size, as it was registered. The size is in app units.
#[derive(Debug)]
pub struct BaseFontInstance {
    pub font_key: FontKey,
    pub size: i32,
    pub bg_color: ColorU,
    pub render_mode: FontRenderMode,
    pub flags: u32,
    pub synthetic_italics: i16,
    pub platform_options: Option<u64>,
    pub variations: Vec<FontVariation>,
}

/// A font at a size, in a colour, as a text run uses it.
#[derive(Debug)]
pub struct FontInstance<'a> {
    pub font_key: FontKey,
    pub size: i32,
    pub color: ColorF,
    pub bg_color: ColorU,
    pub render_mode: LimitedRenderMode,
    pub flags: u32,
    pub synthetic_italics: i16,
    pub platform_options: Option<u64>,
    pub variations: &'a Vec<FontVariation>,
}

impl<'a> FontInstance<'a> {
    /// The same again.
    pub fn copy(&self) -> (r: FontInstance<'a>)
        ensures
            r == *self,
    {
        FontInstance {
            font_key: self.font_key,
            size: self.size,
            color: self.color,
            bg_color: self.bg_color,
            render_mode: self.render_mode,
            flags: self.flags,
            synthetic_italics: self.synthetic_italics,
            platform_options: self.platform_options,
            variations: self.variations,
        }
    }
}

/// A run of glyphs in one font. The glyphs are those of the display list, each
/// moved back by `prim_offset`.
#[derive(Debug)]
pub struct TextRun<'a> {
    pub glyphs: &'a Vec<GlyphInstance>,
    pub prim_offset: LayoutVector2D,
    pub font: FontInstance<'a>,
    pub draws: bool,
    pub shadow: Option<Shadow>,
}

impl<'a> TextRun<'a> {
    /// The same run again.
    pub fn copy(&self) -> (r: TextRun<'a>)
        ensures
            r == *self,
    {
        TextRun {
            glyphs: self.glyphs,
            prim_offset: self.prim_offset.copy(),
            font: self.font.copy(),
            draws: self.draws,
            shadow: self.shadow,
        }
    }

    /// A glyph of this run, placed relative to the run.
    pub open spec fn placed(self, glyph: GlyphInstance) -> PlacedGlyph {
        PlacedGlyph {
            index: glyph.index,
            point: LayoutPoint::Minus(
                Box::new(LayoutPoint::Value(glyph.point)),
                Box::new(self.prim_offset),
            ),
        }
    }

    /// All glyphs of this run, in their order, placed relative to the run.
    pub fn placed_glyphs(&self) -> (r: Vec<PlacedGlyph>)
        ensures
            r@ == self.glyphs@.map_values(|g: GlyphInstance| self.placed(g)),
    {
        let mut r: Vec<PlacedGlyph> = Vec::new();
        let mut i: usize = 0;
        while i < self.glyphs.len()
            invariant
                i <= self.glyphs@.len(),
                r@.len() == i,
                forall|j: int| 0 <= j < i ==> #[trigger] r@[j] == self.placed(self.glyphs@[j]),
            decreases self.glyphs@.len() - i,
        {
            let glyph = self.glyphs[i];
            r.push(
                PlacedGlyph {
                    index: glyph.index,
                    point: LayoutPoint::Minus(
                        Box::new(LayoutPoint::Value(glyph.point)),
                        Box::new(self.prim_offset.copy()),
                    ),
                },
            );
            i = i + 1;
        }
        assert(r@ =~= self.glyphs@.map_values(|g: GlyphInstance| self.placed(g)));
        r
    }
}

/// A primitive of any kind.
#[derive(Debug)]
pub enum Primitive<'a> {
    Image(Image),
    YuvImage(YuvImage),
    LineDecoration(LineDecoration),
    NormalBorder(NormalBorderPrim),
    Rectangle(PrimitiveKeyKind),
    ImageBorder(ImageBorder),
    LinearGradient(LinearGradient<'a>),
    RadialGradient(RadialGradient<'a>),
    TextRun(TextRun<'a>),
}

impl IsVisible for Image {
    open spec fn visible(&self) -> bool {
        self.draws
    }

    fn is_visible(&self) -> (r: bool) {
        self.draws
    }
}

impl IsVisible for YuvImage {
    open spec fn visible(&self) -> bool {
        self.draws
    }

    fn is_visible(&self) -> (r: bool) {
        self.draws
    }
}

impl IsVisible for LineDecoration {
    open spec fn visible(&self) -> bool {
        self.draws
    }

    fn is_visible(&self) -> (r: bool) {
        self.draws
    }
}

impl IsVisible for NormalBorderPrim {
    open spec fn visible(&self) -> bool {
        self.draws
    }

    fn is_visible(&self) -> (r: bool) {
        self.draws
    }
}

impl IsVisible for PrimitiveKeyKind {
    open spec fn visible(&self) -> bool {
        match *self {
            PrimitiveKeyKind::Rectangle { draws, .. } => draws,
            PrimitiveKeyKind::Clear { draws, .. } => draws,
        }
    }

    fn is_visible(&self) -> (r: bool) {
        match *self {
            PrimitiveKeyKind::Rectangle { draws, .. } => draws,
            PrimitiveKeyKind::Clear { draws, .. } => draws,
        }
    }
}

impl IsVisible for ImageBorder {
    open spec fn visible(&self) -> bool {
        self.draws
    }

    fn is_visible(&self) -> (r: bool) {
        self.draws
    }
}

impl<'a> IsVisible for LinearGradient<'a> {
    open spec fn visible(&self) -> bool {
        self.draws
    }

    fn is_visible(&self) -> (r: bool) {
        self.draws
    }
}

impl<'a> IsVisible for RadialGradient<'a> {
    open spec fn visible(&self) -> bool {
        self.draws
    }

    fn is_visible(&self) -> (r: bool) {
        self.draws
    }
}

impl<'a> IsVisible for TextRun<'a> {
    open spec fn visible(&self) -> bool {
        self.draws
    }

    fn is_visible(&self) -> (r: bool) {
        self.draws
    }
}

impl CreateShadow for Image {
    open spec fn shadowed(&self, shadow: Shadow) -> Image {
        Image { shadow: Some(shadow), ..*self }
    }

    fn create_shadow(&self, shadow: &Shadow) -> (r: Image) {
        let mut image = self.copy();
        image.shadow = Some(*shadow);
        image
    }
}

impl CreateShadow for LineDecoration {
    open spec fn shadowed(&self, shadow: Shadow) -> LineDecoration {
        LineDecoration { shadow: Some(shadow), ..*self }
    }

    fn create_shadow(&self, shadow: &Shadow) -> (r: LineDecoration) {
        LineDecoration { shadow: Some(*shadow), ..*self }
    }
}

impl CreateShadow for NormalBorderPrim {
    open spec fn shadowed(&self, shadow: Shadow) -> NormalBorderPrim {
        NormalBorderPrim { shadow: Some(shadow), ..*self }
    }

    fn create_shadow(&self, shadow: &Shadow) -> (r: NormalBorderPrim) {
        NormalBorderPrim { shadow: Some(*shadow), ..*self }
    }
}

impl CreateShadow for PrimitiveKeyKind {
    open spec fn shadowed(&self, shadow: Shadow) -> PrimitiveKeyKind {
        match *self {
            PrimitiveKeyKind::Rectangle { color, draws, .. } => PrimitiveKeyKind::Rectangle {
                color,
                draws,
                shadow: Some(shadow),
            },
            PrimitiveKeyKind::Clear { draws, .. } => PrimitiveKeyKind::Clear {
                draws,
                shadow: Some(shadow),
            },
        }
    }

    fn create_shadow(&self, shadow: &Shadow) -> (r: PrimitiveKeyKind) {
        match *self {
            PrimitiveKeyKind::Rectangle { color, draws, .. } => PrimitiveKeyKind::Rectangle {
                color,
                draws,
                shadow: Some(*shadow),
            },
            PrimitiveKeyKind::Clear { draws, .. } => PrimitiveKeyKind::Clear {
                draws,
                shadow: Some(*shadow),
            },
        }
    }
}

impl<'a> CreateShadow for TextRun<'a> {
    open spec fn shadowed(&self, shadow: Shadow) -> TextRun<'a> {
        TextRun { shadow: Some(shadow), ..*self }
    }

    fn create_shadow(&self, shadow: &Shadow) -> (r: TextRun<'a>) {
        let mut run = self.copy();
        run.shadow = Some(*shadow);
        run
    }
}

impl<'a> Internable<'a> for Image {
    open spec fn key(self) -> Primitive<'a> {
        Primitive::Image(self)
    }

    fn into_key(self) -> (r: Primitive<'a>) {
        Primitive::Image(self)
    }
}

impl<'a> Internable<'a> for YuvImage {
    open spec fn key(self) -> Primitive<'a> {
        Primitive::YuvImage(self)
    }

    fn into_key(self) -> (r: Primitive<'a>) {
        Primitive::YuvImage(self)
    }
}

impl<'a> Internable<'a> for LineDecoration {
    open spec fn key(self) -> Primitive<'a> {
        Primitive::LineDecoration(self)
    }

    fn into_key(self) -> (r: Primitive<'a>) {
        Primitive::LineDecoration(self)
    }
}

impl<'a> Internable<'a> for NormalBorderPrim {
    open spec fn key(self) -> Primitive<'a> {
        Primitive::NormalBorder(self)
    }

    fn into_key(self) -> (r: Primitive<'a>) {
        Primitive::NormalBorder(self)
    }
}

impl<'a> Internable<'a> for PrimitiveKeyKind {
    open spec fn key(self) -> Primitive<'a> {
        Primitive::Rectangle(self)
    }

    fn into_key(self) -> (r: Primitive<'a>) {
        Primitive::Rectangle(self)
    }
}

impl<'a> Internable<'a> for ImageBorder {
    open spec fn key(self) -> Primitive<'a> {
        Primitive::ImageBorder(self)
    }

    fn into_key(self) -> (r: Primitive<'a>) {
        Primitive::ImageBorder(self)
    }
}

impl<'a> Internable<'a> for LinearGradient<'a> {
    open spec fn key(self) -> Primitive<'a> {
        Primitive::LinearGradient(self)
    }

    fn into_key(self) -> (r: Primitive<'a>) {
        Primitive::LinearGradient(self)
    }
}

impl<'a> Internable<'a> for RadialGradient<'a> {
    open spec fn key(self) -> Primitive<'a> {
        Primitive::RadialGradient(self)
    }

    fn into_key(self) -> (r: Primitive<'a>) {
        Primitive::RadialGradient(self)
    }
}

impl<'a> Internable<'a> for TextRun<'a> {
    open spec fn key(self) -> Primitive<'a> {
        Primitive::TextRun(self)
    }

    fn into_key(self) -> (r: Primitive<'a>) {
        Primitive::TextRun(self)
    }
}

/// What the scene keeps of interned data.
#[derive(Debug)]
pub struct PrimitiveSceneData {
    pub prim_size: LayoutSize,
    pub is_backface_visible: bool,
}

/// What a picture is known by.
#[derive(Debug)]
pub struct PictureKey {
    pub is_backface_visible: bool,
    pub prim_size: LayoutSize,
    pub composite_mode_key: PictureCompositeKey,
}

/// Data to be interned. It is the embedder whose interners store data with the
/// same key once, and keep it from one scene to the next.
#[derive(Debug)]
pub enum InternRequest<'a> {
    Clip(ClipItemKey),
    /// The key of a primitive is made of the primitive and of its layout.
    Primitive { prim: Primitive<'a>, info: LayoutPrimitiveInfo, data: PrimitiveSceneData },
    Picture { key: PictureKey, data: PrimitiveSceneData },
}

/// A log of all data to be interned, in the order in which it comes up. What
/// uses some data names it by the place of its request in the log. The embedder
/// hands the requests to its interners in that order; the handle of some data is
/// what they give back for its request.
pub struct InternLog<'a> {
    pub requests: Vec<InternRequest<'a>>,
}

impl<'a> View for InternLog<'a> {
    type V = Seq<InternRequest<'a>>;

    open spec fn view(&self) -> Seq<InternRequest<'a>> {
        self.requests@
    }
}

impl<'a> InternLog<'a> {
    /// A log without requests.
    pub fn new() -> (r: InternLog<'a>)
        ensures
            r@ == Seq::<InternRequest<'a>>::empty(),
    {
        InternLog { requests: Vec::new() }
    }

    /// The place of the next request.
    pub fn next_request(&self) -> (r: RequestIndex)
        ensures
            r.index == self@.len(),
    {
        RequestIndex { index: self.requests.len() }
    }

    /// Logs data to be interned, and returns the place of the request.
    pub fn intern(&mut self, request: InternRequest<'a>) -> (r: RequestIndex)
        ensures
            final(self)@ == old(self)@.push(request),
            r.index == old(self)@.len(),
    {
        let index = self.next_request();
        self.requests.push(request);
        index
    }
}

impl<'a> AsInstanceKind<RequestIndex> for Primitive<'a> {
    fn as_instance_kind(
        &self,
        data_handle: RequestIndex,
        prim_store: &mut PrimitiveStore,
        reference_frame_relative_offset: LayoutVector2D,
    ) -> (r: PrimitiveInstanceKind)
        ensures
            final(prim_store)@ == (PrimitiveStoreContents {
                records: old(prim_store)@.records.push(
                    PrimitiveRecord { data_handle, reference_frame_relative_offset },
                ),
                ..old(prim_store)@
            }),
            r matches PrimitiveInstanceKind::Primitive { data_handle: h, record } && h
                == data_handle && record == old(prim_store)@.records.len(),
    {
        let record: usize = prim_store.add_record(data_handle, reference_frame_relative_offset);
        PrimitiveInstanceKind::Primitive { data_handle, record }
    }
}

} // verus!
