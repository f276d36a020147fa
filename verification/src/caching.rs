//! Picture caching: a slice of a stacking context that scrolls together is drawn
//! into a cache of tiles.
use vstd::prelude::*;

use crate::flattener::DisplayListFlattener;
use crate::ids::{root_spatial_node_index, ClipChainId, SpatialNodeIndex};
use crate::layout::{ColorF, F32, LayoutRect};
use crate::picture::{
    InstanceList, Instances, Picture3DContext, PictureCompositeKey, PictureCompositeMode,
    PicturePrimitive, RasterSpace, TileCache,
};
use crate::spatial_tree::{scroll_root, spatial_nodes_ordered, SpatialNode};
use crate::stacking_context::create_prim_instance;
use crate::state::{
    caching_cut, is_scrolled, scrolled_until, several_scroll_roots, unscrolled_before,
    FlattenerState,
};

verus! {

/// The instances before the first that scrolls do not scroll, and it does.
pub proof fn lemma_unscrolled_before(tree: Seq<SpatialNode>, prims: Instances)
    ensures
        0 <= unscrolled_before(tree, prims) <= prims.len(),
        forall|i: int|
            0 <= i < unscrolled_before(tree, prims) ==> !is_scrolled(tree, #[trigger] prims[i]),
        unscrolled_before(tree, prims) < prims.len() ==> is_scrolled(
            tree,
            prims[unscrolled_before(tree, prims)],
        ),
    decreases prims.len(),
{
    if prims.len() > 0 && !is_scrolled(tree, prims[0]) {
        let rest = prims.drop_first();
        lemma_unscrolled_before(tree, rest);
        assert forall|i: int| 0 <= i < unscrolled_before(tree, prims) implies !is_scrolled(
            tree,
            #[trigger] prims[i],
        ) by {
            if i > 0 {
                assert(rest[i - 1] == prims[i]);
            }
        }
    }
}

/// The instances after the last that scrolls do not scroll, and it does.
pub proof fn lemma_scrolled_until(tree: Seq<SpatialNode>, prims: Instances)
    ensures
        0 <= scrolled_until(tree, prims) <= prims.len(),
        forall|i: int|
            scrolled_until(tree, prims) <= i < prims.len() ==> !is_scrolled(
                tree,
                #[trigger] prims[i],
            ),
        scrolled_until(tree, prims) > 0 ==> is_scrolled(
            tree,
            prims[scrolled_until(tree, prims) - 1],
        ),
    decreases prims.len(),
{
    if prims.len() > 0 && !is_scrolled(tree, prims.last()) {
        let rest = prims.drop_last();
        lemma_scrolled_until(tree, rest);
        assert forall|i: int| scrolled_until(tree, prims) <= i < prims.len() implies !is_scrolled(
            tree,
            #[trigger] prims[i],
        ) by {
            if i < rest.len() {
                assert(rest[i] == prims[i]);
            }
        }
    }
}

impl<'a> FlattenerState<'a> {
    /// Whether the tree holds the positioning nodes of all instances.
    pub open spec fn places(self, prims: Instances) -> bool {
        &&& spatial_nodes_ordered(self.tree)
        &&& forall|i: int|
            0 <= i < prims.len() ==> (#[trigger] prims[i]).spatial_node_index.index
                < self.tree.len()
    }

    /// Whether picture caching can be set up: where it is enabled, all instances
    /// are placed; where it then applies, there are a root pipeline and a root
    /// clip chain.
    pub open spec fn can_set_up_caching(self, prims: Instances) -> bool {
        self.config.enable_picture_caching ==> {
            &&& self.places(prims)
            &&& !several_scroll_roots(self.tree, prims) ==> {
                &&& self.scene.root_pipeline_id is Some
                &&& self.pipeline_clip_chain_stack.len() > 0
            }
        }
    }
}

impl<'a> DisplayListFlattener<'a> {
    /// Finds the scroll root that all scrolling instances of a list share, with
    /// the place of the first of them: nothing where they have different ones,
    /// and the root of the tree, with the length of the list, where none
    /// scrolls.
    fn find_main_scroll_root(&self, primitives: &InstanceList) -> (r: Option<
        (usize, SpatialNodeIndex),
    >)
        requires
            self@.places(primitives@),
        ensures
            r is None <==> several_scroll_roots(self@.tree, primitives@),
            r matches Some((first, root)) ==> {
                &&& first == unscrolled_before(self@.tree, primitives@)
                &&& first <= primitives@.len()
                &&& root == caching_cut(self@.tree, primitives@).scroll_root
            },
    {
        let root = root_spatial_node_index();
        let mut main: Option<(usize, SpatialNodeIndex)> = None;
        let ghost prims = primitives@;
        let ghost tree = self@.tree;
        let mut i: usize = 0;
        while i < primitives.len()
            invariant
                root == root_spatial_node_index(),
                prims == primitives@,
                tree == self@.tree,
                self@.places(prims),
                i <= prims.len(),
                main is None ==> forall|j: int|
                    0 <= j < i ==> !is_scrolled(tree, #[trigger] prims[j]),
                main matches Some((first, main_root)) ==> {
                    &&& first < i
                    &&& is_scrolled(tree, prims[first as int])
                    &&& main_root == scroll_root(tree, prims[first as int].spatial_node_index)
                    &&& forall|j: int| 0 <= j < first ==> !is_scrolled(tree, #[trigger] prims[j])
                    &&& forall|j: int|
                        0 <= j < i && is_scrolled(tree, #[trigger] prims[j]) ==> scroll_root(
                            tree,
                            prims[j].spatial_node_index,
                        ) == main_root
                },
            decreases prims.len() - i,
        {
            let instance_root = self.find_scroll_root(primitives[i].spatial_node_index);
            if instance_root != root {
                // If there are several scroll roots, then picture caching does
                // not apply.
                match main {
                    Some((first, main_root)) => {
                        if main_root != instance_root {
                            assert(is_scrolled(tree, prims[first as int]));
                            assert(is_scrolled(tree, prims[i as int]));
                            return None;
                        }
                    },
                    None => {
                        main = Some((i, instance_root));
                    },
                }
            }
            i = i + 1;
        }
        match main {
            Some((first, main_root)) => {
                proof {
                    lemma_unscrolled_before(tree, prims);
                }
                Some((first, main_root))
            },
            None => {
                proof {
                    lemma_unscrolled_before(tree, prims);
                }
                Some((primitives.len(), root))
            },
        }
    }

    /// The end of the part of a list that ends with a scrolling instance.
    fn find_scrolled_end(&self, primitives: &InstanceList) -> (r: usize)
        requires
            self@.places(primitives@),
        ensures
            r == scrolled_until(self@.tree, primitives@),
    {
        let root = root_spatial_node_index();
        let mut i: usize = primitives.len();
        while i > 0
            invariant
                root == root_spatial_node_index(),
                self@.places(primitives@),
                i <= primitives@.len(),
                forall|j: int|
                    i <= j < primitives@.len() ==> !is_scrolled(
                        self@.tree,
                        #[trigger] primitives@[j],
                    ),
            decreases i,
        {
            if self.find_scroll_root(primitives[i - 1].spatial_node_index) != root {
                proof {
                    lemma_scrolled_until(self@.tree, primitives@);
                }
                return i;
            }
            i = i - 1;
        }
        proof {
            lemma_scrolled_until(self@.tree, primitives@);
        }
        0
    }

    /// Cuts the instances of a stacking context by what they scroll with, and
    /// puts those that scroll into a picture with a tile cache:
    ///
    /// - the instances before the first that scrolls,
    /// - the picture with everything from the first to the last that scrolls,
    /// - the instances after the last that scrolls.
    ///
    /// Where nothing scrolls, the picture takes everything. Where instances
    /// scroll with different scroll roots, nothing is cached.
    pub fn setup_picture_caching(&mut self, primitives: &mut InstanceList)
        requires
            old(self)@.can_set_up_caching(old(primitives)@),
        ensures
            final(self)@ == old(self)@.setup_picture_caching(old(primitives)@),
            final(primitives)@ == old(self)@.cached_primitives(old(primitives)@),
    {
        if !self.config.enable_picture_caching {
            return;
        }
        let ghost prims = primitives@;
        let ghost tree = self@.tree;
        let ghost cut = caching_cut(tree, prims);
        let (first_index, main_scroll_root) = match self.find_main_scroll_root(primitives) {
            Some(found) => found,
            None => {
                return;
            },
        };
        let mut remaining_prims: InstanceList = Vec::new();
        let mut trailing_prims: InstanceList = Vec::new();
        if first_index < primitives.len() {
            let end_index: usize = self.find_scrolled_end(primitives);
            proof {
                lemma_unscrolled_before(tree, prims);
                lemma_scrolled_until(tree, prims);
            }
            trailing_prims = primitives.split_off(end_index);
            remaining_prims = primitives.split_off(first_index);
            assert(remaining_prims@ =~= cut.cached);
            assert(trailing_prims@ =~= cut.trailing);
            assert(primitives@ =~= cut.preceding);
        } else {
            std::mem::swap(primitives, &mut remaining_prims);
            assert(remaining_prims@ =~= cut.cached);
            assert(trailing_prims@ =~= cut.trailing);
            assert(primitives@ =~= cut.preceding);
        }

        // Make a picture with tile caching that holds everything that belongs
        // to the main scroll root.
        let clips: usize = self.pipeline_clip_chain_stack.len();
        let tile_cache = TileCache {
            spatial_node_index: main_scroll_root,
            root_clip_chain_id: self.pipeline_clip_chain_stack[clips - 1],
        };
        let picture = PicturePrimitive {
            requested_composite_mode: Some(
                PictureCompositeMode::TileCache {
                    clear_color: ColorF {
                        r: F32::one(),
                        g: F32::one(),
                        b: F32::one(),
                        a: F32::one(),
                    },
                },
            ),
            context_3d: Picture3DContext::Out,
            pipeline_id: self.scene.root_pipeline_id.unwrap(),
            frame_output_pipeline_id: None,
            apply_local_clip_rect: true,
            requested_raster_space: RasterSpace::Screen,
            prim_list: remaining_prims,
            spatial_node_index: main_scroll_root,
            local_clip_rect: LayoutRect::Max,
            tile_cache: Some(tile_cache),
            options: None,
            optimize: false,
        };
        let pic_index = self.prim_store.add_picture(picture);
        let instance = create_prim_instance(
            pic_index,
            PictureCompositeKey::Identity,
            true,
            ClipChainId::Unclipped,
            main_scroll_root,
            &mut self.intern_log,
        );
        primitives.push(instance);
        primitives.append(&mut trailing_prims);
        assert(primitives@ =~= old(self)@.cached_primitives(prims));
    }
}

} // verus!
