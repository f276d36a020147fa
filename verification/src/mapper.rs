//! From the ids of a display list to the indices of the flattened scene.
use std::collections::HashMap;

use vstd::prelude::*;

use crate::ids::{
    lemma_scoped_key_injective, scoped_key, ClipChainId, ClipId, SpatialId, SpatialNodeIndex,
};

verus! {

broadcast use vstd::std_specs::hash::group_hash_axioms;

/// A clip of a display list, as it is stored: the last node of its clip chain,
/// and how many nodes of that chain the clip itself contributed.
#[derive(Clone, Copy, Debug)]
pub struct ClipNode {
    pub id: ClipChainId,
    pub count: usize,
}

impl ClipNode {
    pub fn new(id: ClipChainId, count: usize) -> (r: ClipNode)
        ensures
            r == (ClipNode { id, count }),
    {
        ClipNode { id, count }
    }
}

/// What a mapper holds: the clips and the positioning nodes that have been
/// mapped so far.
#[verifier::ext_equal]
pub struct Mapping {
    pub clips: Map<ClipId, ClipNode>,
    pub spatial: Map<SpatialId, SpatialNodeIndex>,
}

impl Mapping {
    /// Nothing mapped.
    pub open spec fn empty() -> Mapping {
        Mapping { clips: Map::empty(), spatial: Map::empty() }
    }

    /// The mapping in which `id` is the clip chain that ends in `index`.
    pub open spec fn add_clip_chain(self, id: ClipId, index: ClipChainId, count: usize) -> Mapping {
        Mapping { clips: self.clips.insert(id, ClipNode { id: index, count }), ..self }
    }

    /// The mapping in which `id` is the node `index`.
    pub open spec fn map_spatial_node(self, id: SpatialId, index: SpatialNodeIndex) -> Mapping {
        Mapping { spatial: self.spatial.insert(id, index), ..self }
    }
}

/// A data structure that keeps track of the mapping from the ids of a display
/// list to indices: a clip to its clip chain, a positioning node to its place
/// in the positioning tree.
pub struct NodeIdToIndexMapper {
    clip_node_map: HashMap<u128, ClipNode>,
    clip_chain_map: HashMap<u128, ClipNode>,
    spatial_node_map: HashMap<u128, SpatialNodeIndex>,
}

impl View for NodeIdToIndexMapper {
    type V = Mapping;

    closed spec fn view(&self) -> Mapping {
        Mapping {
            clips: Map::new(
                |id: ClipId|
                    match id {
                        ClipId::Clip(n, p) => self.clip_node_map@.contains_key(scoped_key(n, p)),
                        ClipId::ClipChain(c) => self.clip_chain_map@.contains_key(
                            scoped_key(c.id, c.pipeline_id),
                        ),
                    },
                |id: ClipId|
                    match id {
                        ClipId::Clip(n, p) => self.clip_node_map@[scoped_key(n, p)],
                        ClipId::ClipChain(c) => self.clip_chain_map@[scoped_key(
                            c.id,
                            c.pipeline_id,
                        )],
                    },
            ),
            spatial: Map::new(
                |id: SpatialId|
                    self.spatial_node_map@.contains_key(scoped_key(id.id, id.pipeline_id)),
                |id: SpatialId| self.spatial_node_map@[scoped_key(id.id, id.pipeline_id)],
            ),
        }
    }
}

impl NodeIdToIndexMapper {
    /// A mapper that has mapped nothing.
    pub fn new() -> (r: NodeIdToIndexMapper)
        ensures
            r@ == Mapping::empty(),
    {
        let r = NodeIdToIndexMapper {
            clip_node_map: HashMap::new(),
            clip_chain_map: HashMap::new(),
            spatial_node_map: HashMap::new(),
        };
        assert(r@ =~= Mapping::empty());
        r
    }

    /// Maps a clip to the clip chain that ends in `index`, of which the last
    /// `count` nodes are the clip's own.
    pub fn add_clip_chain(&mut self, id: ClipId, index: ClipChainId, count: usize)
        ensures
            final(self)@ == old(self)@.add_clip_chain(id, index, count),
    {
        match id {
            ClipId::Clip(n, p) => {
                let key: u128 = scoped_key(n, p);
                self.clip_node_map.insert(key, ClipNode::new(index, count));
                proof {
                    assert forall|m: u64, q: crate::ids::PipelineId|
                        scoped_key(m, q) == key implies m == n && q == p by {
                        lemma_scoped_key_injective(m, q, n, p);
                    }
                }
            },
            ClipId::ClipChain(c) => {
                let key: u128 = scoped_key(c.id, c.pipeline_id);
                self.clip_chain_map.insert(key, ClipNode::new(index, count));
                proof {
                    assert forall|m: u64, q: crate::ids::PipelineId|
                        scoped_key(m, q) == key implies m == c.id && q == c.pipeline_id by {
                        lemma_scoped_key_injective(m, q, c.id, c.pipeline_id);
                    }
                }
            },
        }
        assert(self@.clips =~= old(self)@.clips.insert(id, ClipNode { id: index, count }));
        assert(self@.spatial =~= old(self)@.spatial);
    }

    /// Maps a positioning node to its place in the tree.
    pub fn map_spatial_node(&mut self, id: SpatialId, index: SpatialNodeIndex)
        ensures
            final(self)@ == old(self)@.map_spatial_node(id, index),
    {
        let key: u128 = scoped_key(id.id, id.pipeline_id);
        self.spatial_node_map.insert(key, index);
        proof {
            assert forall|m: u64, q: crate::ids::PipelineId| scoped_key(m, q) == key implies m
                == id.id && q == id.pipeline_id by {
                lemma_scoped_key_injective(m, q, id.id, id.pipeline_id);
            }
        }
        assert(self@.clips =~= old(self)@.clips);
        assert(self@.spatial =~= old(self)@.spatial.insert(id, index));
    }

    /// The clip that `id` is mapped to, if it is.
    pub fn find_clip_node(&self, id: ClipId) -> (r: Option<ClipNode>)
        ensures
            r == (if self@.clips.contains_key(id) {
                Some(self@.clips[id])
            } else {
                None
            }),
    {
        let found = match id {
            ClipId::Clip(n, p) => self.clip_node_map.get(&scoped_key(n, p)),
            ClipId::ClipChain(c) => self.clip_chain_map.get(&scoped_key(c.id, c.pipeline_id)),
        };
        match found {
            Some(node) => Some(*node),
            None => None,
        }
    }

    /// The positioning node that `id` is mapped to, if it is.
    pub fn find_spatial_node(&self, id: SpatialId) -> (r: Option<SpatialNodeIndex>)
        ensures
            r == (if self@.spatial.contains_key(id) {
                Some(self@.spatial[id])
            } else {
                None
            }),
    {
        match self.spatial_node_map.get(&scoped_key(id.id, id.pipeline_id)) {
            Some(index) => Some(*index),
            None => None,
        }
    }

    /// The clip that a mapped id is mapped to.
    pub fn get_clip_node(&self, id: &ClipId) -> (r: ClipNode)
        requires
            self@.clips.contains_key(*id),
        ensures
            r == self@.clips[*id],
    {
        self.find_clip_node(*id).unwrap()
    }

    /// The clip chain that a mapped clip is mapped to.
    pub fn get_clip_chain_id(&self, id: ClipId) -> (r: ClipChainId)
        requires
            self@.clips.contains_key(id),
        ensures
            r == self@.clips[id].id,
    {
        self.find_clip_node(id).unwrap().id
    }

    /// The place in the tree that a mapped positioning node is mapped to.
    pub fn get_spatial_node_index(&self, id: SpatialId) -> (r: SpatialNodeIndex)
        requires
            self@.spatial.contains_key(id),
        ensures
            r == self@.spatial[id],
    {
        self.find_spatial_node(id).unwrap()
    }
}

impl Default for NodeIdToIndexMapper {
    fn default() -> (r: NodeIdToIndexMapper)
        ensures
            r@ == Mapping::empty(),
    {
        NodeIdToIndexMapper::new()
    }
}

} // verus!
