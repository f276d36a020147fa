//! Pictures, and the primitive instances that they draw.
use vstd::prelude::*;

use crate::ids::{ClipChainId, PictureIndex, PipelineId, RequestIndex, SpatialNodeIndex};
use crate::layout::{ColorF, F32, LayoutPoint, LayoutRect, LayoutVector2D};

verus! {

/// Reasons for which a picture needs a surface of its own.
#[derive(Clone, Copy, Debug, PartialEq, Eq, Structural)]
pub struct BlitReason {
    pub preserve_3d: bool,
    pub clip: bool,
    pub isolate: bool,
}

impl BlitReason {
    pub open spec fn spec_empty() -> BlitReason {
        BlitReason { preserve_3d: false, clip: false, isolate: false }
    }

    /// No reason.
    #[verifier::when_used_as_spec(spec_empty)]
    pub fn empty() -> (r: BlitReason)
        ensures
            r == BlitReason::spec_empty(),
    {
        BlitReason { preserve_3d: false, clip: false, isolate: false }
    }

    pub open spec fn spec_preserve_3d() -> BlitReason {
        BlitReason { preserve_3d: true, clip: false, isolate: false }
    }

    pub open spec fn spec_clip() -> BlitReason {
        BlitReason { preserve_3d: false, clip: true, isolate: false }
    }

    pub open spec fn spec_isolate() -> BlitReason {
        BlitReason { preserve_3d: false, clip: false, isolate: true }
    }

    pub open spec fn spec_is_empty(self) -> bool {
        self == BlitReason::spec_empty()
    }

    /// Whether there is no reason at all.
    #[verifier::when_used_as_spec(spec_is_empty)]
    pub fn is_empty(self) -> (r: bool)
        ensures
            r == self.spec_is_empty(),
    {
        !self.preserve_3d && !self.clip && !self.isolate
    }

    pub open spec fn spec_union(self, other: BlitReason) -> BlitReason {
        BlitReason {
            preserve_3d: self.preserve_3d || other.preserve_3d,
            clip: self.clip || other.clip,
            isolate: self.isolate || other.isolate,
        }
    }

    /// The reasons of both.
    #[verifier::when_used_as_spec(spec_union)]
    pub fn union(self, other: BlitReason) -> (r: BlitReason)
        ensures
            r == self.spec_union(other),
    {
        BlitReason {
            preserve_3d: self.preserve_3d || other.preserve_3d,
            clip: self.clip || other.clip,
            isolate: self.isolate || other.isolate,
        }
    }
}

/// Whether a picture is drawn in screen space (quality) or in local space, at a
/// scale (performance).
#[derive(Clone, Copy, Debug)]
pub enum RasterSpace {
    Local(F32),
    Screen,
}

impl RasterSpace {
    /// Whether two raster spaces are the same; scales are compared as
    /// floating-point numbers.
    pub open spec fn spec_same_as(self, other: RasterSpace) -> bool {
        match (self, other) {
            (RasterSpace::Local(a), RasterSpace::Local(b)) => a.same(b),
            (RasterSpace::Screen, RasterSpace::Screen) => true,
            _ => false,
        }
    }

    #[verifier::when_used_as_spec(spec_same_as)]
    pub fn same_as(self, other: RasterSpace) -> (r: bool)
        ensures
            r == self.spec_same_as(other),
    {
        match (self, other) {
            (RasterSpace::Local(a), RasterSpace::Local(b)) => a.equals(b),
            (RasterSpace::Screen, RasterSpace::Screen) => true,
            _ => false,
        }
    }
}

/// A mix-blend mode other than the normal one, by its number.
#[derive(Clone, Copy, Debug)]
pub struct MixBlendMode {
    pub number: u8,
}

/// A filter.
#[derive(Clone, Copy, Debug)]
pub enum FilterOp {
    /// A filter of the display list, which the embedder keeps, by its number.
    Given(u64),
    /// A Gaussian blur with a standard deviation of half the radius.
    ShadowBlur { blur_radius: F32 },
}

/// A filter with its parameters brought into range.
#[derive(Clone, Copy, Debug)]
pub struct SanitizedFilter {
    pub filter: FilterOp,
}

/// How a picture is drawn into the one that holds it.
#[derive(Clone, Copy, Debug)]
pub enum PictureCompositeMode {
    MixBlend(MixBlendMode),
    Filter(SanitizedFilter),
    Blit(BlitReason),
    TileCache { clear_color: ColorF },
}

/// What pictures that are drawn in the same way have in common.
#[derive(Clone, Copy, Debug)]
pub enum PictureCompositeKey {
    Identity,
    /// The key of a composite mode.
    Of(Option<PictureCompositeMode>),
}

/// The relation of a picture to a preserve-3D hierarchy. `L` is a list of
/// primitive instances.
#[derive(Debug)]
pub enum Picture3DContext<L> {
    /// The picture takes no part in one.
    Out,
    /// The picture takes part in one. The root of the hierarchy holds the list
    /// of what is drawn in it.
    In { root_data: Option<L>, ancestor_index: SpatialNodeIndex },
}

/// What an instance draws.
#[derive(Clone, Copy, Debug)]
pub enum PrimitiveInstanceKind {
    /// A primitive: its data, and its record in the primitive store.
    Primitive { data_handle: RequestIndex, record: usize },
    Picture { data_handle: RequestIndex, pic_index: PictureIndex },
}

/// One use of a primitive or of a picture.
#[derive(Debug)]
pub struct PrimitiveInstance {
    pub prim_origin: LayoutPoint,
    pub local_clip_rect: LayoutRect,
    pub kind: PrimitiveInstanceKind,
    pub clip_chain_id: ClipChainId,
    pub spatial_node_index: SpatialNodeIndex,
}

/// The cache of tiles that a picture is drawn into: the scroll root that the
/// tiles move with, and the clip chain that everything in them shares.
#[derive(Clone, Copy, Debug)]
pub struct TileCache {
    pub spatial_node_index: SpatialNodeIndex,
    pub root_clip_chain_id: ClipChainId,
}

/// Options of a picture that are not the usual ones.
#[derive(Clone, Copy, Debug)]
pub struct PictureOptions {
    pub inflate_if_required: bool,
}

/// A picture. `L` is a list of primitive instances.
#[derive(Debug)]
pub struct PicturePrimitive<L> {
    pub requested_composite_mode: Option<PictureCompositeMode>,
    pub context_3d: Picture3DContext<L>,
    pub pipeline_id: PipelineId,
    pub frame_output_pipeline_id: Option<PipelineId>,
    pub apply_local_clip_rect: bool,
    pub requested_raster_space: RasterSpace,
    pub prim_list: L,
    pub spatial_node_index: SpatialNodeIndex,
    pub local_clip_rect: LayoutRect,
    pub tile_cache: Option<TileCache>,
    pub options: Option<PictureOptions>,
    /// Marks a picture that the embedder is to try to collapse into what it
    /// draws, as soon as the stacking context that it is made for has ended.
    pub optimize: bool,
}

/// A list of instances, as it is held.
pub type InstanceList = Vec<PrimitiveInstance>;

/// A list of instances, as it is spoken of.
pub type Instances = Seq<PrimitiveInstance>;

impl View for Picture3DContext<InstanceList> {
    type V = Picture3DContext<Instances>;

    open spec fn view(&self) -> Picture3DContext<Instances> {
        match self {
            Picture3DContext::Out => Picture3DContext::Out,
            Picture3DContext::In { root_data, ancestor_index } => Picture3DContext::In {
                root_data: match root_data {
                    Some(prims) => Some(prims@),
                    None => None,
                },
                ancestor_index: *ancestor_index,
            },
        }
    }
}

impl View for PicturePrimitive<InstanceList> {
    type V = PicturePrimitive<Instances>;

    open spec fn view(&self) -> PicturePrimitive<Instances> {
        PicturePrimitive {
            requested_composite_mode: self.requested_composite_mode,
            context_3d: self.context_3d@,
            pipeline_id: self.pipeline_id,
            frame_output_pipeline_id: self.frame_output_pipeline_id,
            apply_local_clip_rect: self.apply_local_clip_rect,
            requested_raster_space: self.requested_raster_space,
            prim_list: self.prim_list@,
            spatial_node_index: self.spatial_node_index,
            local_clip_rect: self.local_clip_rect,
            tile_cache: self.tile_cache,
            options: self.options,
            optimize: self.optimize,
        }
    }
}

/// What the primitive store keeps of one use of a primitive: the data of the
/// primitive, and the offset of the reference frame that it is used in.
#[derive(Debug)]
pub struct PrimitiveRecord {
    pub data_handle: RequestIndex,
    pub reference_frame_relative_offset: LayoutVector2D,
}

/// The contents of a primitive store.
#[verifier::ext_equal]
pub struct PrimitiveStoreContents {
    pub pictures: Seq<PicturePrimitive<Instances>>,
    pub records: Seq<PrimitiveRecord>,
}

/// The store of pictures and primitives.
pub struct PrimitiveStore {
    pub pictures: Vec<PicturePrimitive<InstanceList>>,
    pub records: Vec<PrimitiveRecord>,
}

/// The pictures of a list, as they are spoken of.
pub open spec fn pictures_of(pictures: Seq<PicturePrimitive<InstanceList>>) -> Seq<
    PicturePrimitive<Instances>,
> {
    Seq::new(pictures.len(), |i: int| pictures[i]@)
}

impl View for PrimitiveStore {
    type V = PrimitiveStoreContents;

    open spec fn view(&self) -> PrimitiveStoreContents {
        PrimitiveStoreContents {
            pictures: pictures_of(self.pictures@),
            records: self.records@,
        }
    }
}

impl PrimitiveStoreContents {
    /// The store with one more picture.
    pub open spec fn add_picture(self, picture: PicturePrimitive<Instances>) -> Self {
        PrimitiveStoreContents { pictures: self.pictures.push(picture), ..self }
    }

    /// The index that the next picture gets.
    pub open spec fn next_picture(self) -> PictureIndex {
        PictureIndex { index: self.pictures.len() as usize }
    }
}

impl PrimitiveStore {
    /// An empty store.
    pub fn new() -> (r: PrimitiveStore)
        ensures
            r@.pictures == Seq::<PicturePrimitive<Instances>>::empty(),
            r@.records == Seq::<PrimitiveRecord>::empty(),
    {
        PrimitiveStore { pictures: Vec::new(), records: Vec::new() }
    }

    /// Adds a picture, and returns its index.
    pub fn add_picture(&mut self, picture: PicturePrimitive<InstanceList>) -> (r: PictureIndex)
        ensures
            final(self)@ == old(self)@.add_picture(picture@),
            r == old(self)@.next_picture(),
            r.index == old(self)@.pictures.len(),
    {
        let index: usize = self.pictures.len();
        self.pictures.push(picture);
        assert(self@.pictures =~= old(self)@.pictures.push(picture@));
        PictureIndex { index }
    }

    /// Adds a record of a primitive, and returns its position.
    pub fn add_record(
        &mut self,
        data_handle: RequestIndex,
        reference_frame_relative_offset: LayoutVector2D,
    ) -> (r: usize)
        ensures
            final(self)@ == (PrimitiveStoreContents {
                records: old(self)@.records.push(
                    PrimitiveRecord { data_handle, reference_frame_relative_offset },
                ),
                ..old(self)@
            }),
            r == old(self)@.records.len(),
    {
        let index: usize = self.records.len();
        self.records.push(PrimitiveRecord { data_handle, reference_frame_relative_offset });
        assert(self@.pictures =~= old(self)@.pictures);
        index
    }
}

} // verus!
