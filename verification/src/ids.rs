//! Identifiers: those that a display list uses, and the indices that the
//! flattened scene uses.
use vstd::prelude::*;

verus! {

/// Identifies a pipeline, that is a document with a display list of its own.
#[derive(Clone, Copy, Debug, PartialEq, Eq, Structural)]
pub struct PipelineId {
    pub namespace: u32,
    pub index: u32,
}

impl PipelineId {
    /// The number that stands for this pipeline as a key.
    pub open spec fn spec_key(self) -> u64 {
        (self.namespace * 0x1_0000_0000 + self.index) as u64
    }

    #[verifier::when_used_as_spec(spec_key)]
    pub fn key(self) -> (r: u64)
        ensures
            r == self.spec_key(),
    {
        self.namespace as u64 * 0x1_0000_0000 + self.index as u64
    }
}

/// Two pipelines with the same key are the same pipeline.
pub proof fn lemma_pipeline_key_injective(a: PipelineId, b: PipelineId)
    requires
        a.key() == b.key(),
    ensures
        a == b,
{
}

/// The number of an object within a pipeline, with the pipeline, as one key.
pub open spec fn spec_scoped_key(id: u64, pipeline_id: PipelineId) -> u128 {
    (pipeline_id.key() * 0x1_0000_0000_0000_0000 + id) as u128
}

#[verifier::when_used_as_spec(spec_scoped_key)]
pub fn scoped_key(id: u64, pipeline_id: PipelineId) -> (r: u128)
    ensures
        r == spec_scoped_key(id, pipeline_id),
{
    pipeline_id.key() as u128 * 0x1_0000_0000_0000_0000 + id as u128
}

/// Two objects with the same key are the same object of the same pipeline.
pub proof fn lemma_scoped_key_injective(a: u64, p: PipelineId, b: u64, q: PipelineId)
    requires
        scoped_key(a, p) == scoped_key(b, q),
    ensures
        a == b,
        p == q,
{
    lemma_pipeline_key_injective(p, if p.key() == q.key() { q } else { p });
}

/// Names a clip chain that a display list defines.
#[derive(Clone, Copy, Debug, PartialEq, Eq, Structural)]
pub struct ApiClipChainId {
    pub id: u64,
    pub pipeline_id: PipelineId,
}

/// Names a clip of a display list.
#[derive(Clone, Copy, Debug, PartialEq, Eq, Structural)]
pub enum ClipId {
    Clip(u64, PipelineId),
    ClipChain(ApiClipChainId),
}

impl ClipId {
    /// The clip at the root of a pipeline.
    pub open spec fn spec_root(pipeline_id: PipelineId) -> ClipId {
        ClipId::Clip(0, pipeline_id)
    }

    #[verifier::when_used_as_spec(spec_root)]
    pub fn root(pipeline_id: PipelineId) -> (r: ClipId)
        ensures
            r == ClipId::spec_root(pipeline_id),
    {
        ClipId::Clip(0, pipeline_id)
    }

    /// Whether this is the root clip of a pipeline.
    pub open spec fn spec_is_root(self) -> bool {
        self matches ClipId::Clip(id, _) && id == 0
    }

    #[verifier::when_used_as_spec(spec_is_root)]
    pub fn is_root(self) -> (r: bool)
        ensures
            r == self.spec_is_root(),
    {
        match self {
            ClipId::Clip(id, _) => id == 0,
            ClipId::ClipChain(_) => false,
        }
    }

    /// Whether this names a clip at all: the last number is kept for "no clip".
    pub open spec fn spec_is_valid(self) -> bool {
        !(self matches ClipId::Clip(id, _) && id == u64::MAX)
    }

    #[verifier::when_used_as_spec(spec_is_valid)]
    pub fn is_valid(self) -> (r: bool)
        ensures
            r == self.spec_is_valid(),
    {
        match self {
            ClipId::Clip(id, _) => id != u64::MAX,
            ClipId::ClipChain(_) => true,
        }
    }
}

/// Names a positioning node of a display list.
#[derive(Clone, Copy, Debug, PartialEq, Eq, Structural)]
pub struct SpatialId {
    pub id: u64,
    pub pipeline_id: PipelineId,
}

impl SpatialId {
    /// The reference frame at the root of a pipeline.
    pub open spec fn spec_root_reference_frame(pipeline_id: PipelineId) -> SpatialId {
        SpatialId { id: 0, pipeline_id }
    }

    #[verifier::when_used_as_spec(spec_root_reference_frame)]
    pub fn root_reference_frame(pipeline_id: PipelineId) -> (r: SpatialId)
        ensures
            r == SpatialId::spec_root_reference_frame(pipeline_id),
    {
        SpatialId { id: 0, pipeline_id }
    }

    /// The scroll node at the root of a pipeline.
    pub open spec fn spec_root_scroll_node(pipeline_id: PipelineId) -> SpatialId {
        SpatialId { id: 1, pipeline_id }
    }

    #[verifier::when_used_as_spec(spec_root_scroll_node)]
    pub fn root_scroll_node(pipeline_id: PipelineId) -> (r: SpatialId)
        ensures
            r == SpatialId::spec_root_scroll_node(pipeline_id),
    {
        SpatialId { id: 1, pipeline_id }
    }
}

/// Names a scroll frame to the embedder of the renderer.
#[derive(Clone, Copy, Debug, PartialEq, Eq, Structural)]
pub struct ExternalScrollId {
    pub id: u64,
    pub pipeline_id: PipelineId,
}

/// Names an image.
#[derive(Clone, Copy, Debug, PartialEq, Eq, Structural)]
pub struct ImageKey {
    pub namespace: u32,
    pub index: u32,
}

impl ImageKey {
    /// The key that names no image.
    pub open spec fn spec_dummy() -> ImageKey {
        ImageKey { namespace: 0, index: 0 }
    }

    #[verifier::when_used_as_spec(spec_dummy)]
    pub fn dummy() -> (r: ImageKey)
        ensures
            r == ImageKey::spec_dummy(),
    {
        ImageKey { namespace: 0, index: 0 }
    }
}

/// A node of the clip store, by position, or one of two ids that stand for no
/// node: nothing to clip by, and a clip that is not to be used.
#[derive(Clone, Copy, Debug, PartialEq, Eq, Structural)]
pub enum ClipChainId {
    Unclipped,
    Invalid,
    Node(usize),
}

/// A node of the positioning tree, by position.
#[derive(Clone, Copy, Debug, PartialEq, Eq, Structural)]
pub struct SpatialNodeIndex {
    pub index: usize,
}

/// The root of the positioning tree.
pub open spec fn spec_root_spatial_node_index() -> SpatialNodeIndex {
    SpatialNodeIndex { index: 0 }
}

#[verifier::when_used_as_spec(spec_root_spatial_node_index)]
pub fn root_spatial_node_index() -> (r: SpatialNodeIndex)
    ensures
        r == spec_root_spatial_node_index(),
{
    SpatialNodeIndex { index: 0 }
}

/// A picture of the primitive store, by position.
#[derive(Clone, Copy, Debug, PartialEq, Eq, Structural)]
pub struct PictureIndex {
    pub index: usize,
}

/// Data to be interned, by the place of its request in the log of requests.
#[derive(Clone, Copy, Debug, PartialEq, Eq, Structural)]
pub struct RequestIndex {
    pub index: usize,
}

/// Where a primitive is placed, and what clips it.
#[derive(Clone, Copy, Debug, PartialEq, Eq, Structural)]
pub struct ScrollNodeAndClipChain {
    pub spatial_node_index: SpatialNodeIndex,
    pub clip_chain_id: ClipChainId,
}

} // verus!
