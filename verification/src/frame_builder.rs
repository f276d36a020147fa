//! From a scene to what frames are built from: where flattening begins, and what
//! it ends with.
use std::collections::{HashMap, HashSet, VecDeque};

use vstd::prelude::*;

use crate::clip_store::ClipStore;
use crate::display_list::{Scene, ScenePipeline};
use crate::flattener::DisplayListFlattener;
use crate::hit_test::{runs_of, HeldRun};
use crate::ids::{root_spatial_node_index, ClipChainId, ClipId, PictureIndex, PipelineId};
use crate::layout::{ColorF, F32, LayoutVector2D};
use crate::mapper::{Mapping, NodeIdToIndexMapper};
use crate::picture::{PrimitiveStore, PrimitiveStoreContents, RasterSpace};
use crate::primitives::{BaseFontInstance, InternRequest, InternLog};
use crate::soundness::{clip_stored, law_push_stacking_context_wf};
use crate::spatial_tree::{ClipScrollTree, TransformStyle};
use crate::stacking_context::CompositeOps;
use crate::state::{FlattenerState, FrameBuilderConfig};
use crate::stepping::{contexts_open, frame_ok_at, iframes_open};
use crate::traversal::{flattening, FlattenError, Flattening, Frame, FrameKind, Traversal};

verus! {

/// A rectangle of device pixels.
#[derive(Clone, Copy, Debug)]
pub struct ViewRect {
    pub x: i32,
    pub y: i32,
    pub width: i32,
    pub height: i32,
}

/// A size in device pixels.
#[derive(Clone, Copy, Debug)]
pub struct ViewSize {
    pub width: i32,
    pub height: i32,
}

/// What of a document is shown.
#[derive(Clone, Copy, Debug)]
pub struct DocumentView {
    pub inner_rect: ViewRect,
    pub window_size: ViewSize,
}

/// What frames are built from.
pub struct FrameBuilder {
    pub screen_rect: ViewRect,
    pub background_color: Option<ColorF>,
    pub window_size: ViewSize,
    pub hit_testing_runs: Vec<HeldRun>,
    pub prim_store: PrimitiveStore,
    pub clip_store: ClipStore,
    pub root_pic_index: PictureIndex,
    pub config: FrameBuilderConfig,
}

/// The scene that a frame builder was made from.
pub struct BuiltScene<'a> {
    pub root_pipeline_id: Option<PipelineId>,
    pub pipelines: &'a HashMap<u64, ScenePipeline>,
    pub pipeline_epochs: &'a HashMap<u64, u32>,
}

/// All that flattening a scene gives.
pub struct FlattenedScene<'a> {
    pub frame_builder: FrameBuilder,
    pub scene: BuiltScene<'a>,
    pub clip_scroll_tree: ClipScrollTree,
    pub intern_log: InternLog<'a>,
}

/// Whether a scene has a root pipeline.
pub open spec fn has_root_pipeline(scene: &Scene) -> bool {
    scene.root_pipeline_id matches Some(id) && scene.pipelines@.contains_key(id.key())
}

/// The root pipeline of a scene that has one.
pub open spec fn root_pipeline<'a>(scene: &'a Scene) -> &'a ScenePipeline {
    &scene.pipelines@[(scene.root_pipeline_id->0).key()]
}

/// The background colour that is drawn: none where it is transparent.
pub open spec fn drawn_background(color: Option<ColorF>) -> Option<ColorF> {
    match color {
        Some(color) => if color.a.above(F32::zero()) {
            Some(color)
        } else {
            None
        },
        None => None,
    }
}

/// The state before anything of a scene is flattened.
pub open spec fn empty_state<'a>(
    scene: &'a Scene,
    font_instances: &'a HashMap<u64, BaseFontInstance>,
    output_pipelines: &'a HashSet<u64>,
    config: FrameBuilderConfig,
    requests: Seq<InternRequest<'a>>,
) -> FlattenerState<'a> {
    FlattenerState {
        scene,
        font_instances,
        output_pipelines,
        config,
        tree: Seq::empty(),
        mapping: Mapping::empty(),
        sc_stack: Seq::empty(),
        pending_shadow_items: Seq::empty(),
        pipeline_clip_chain_stack: seq![ClipChainId::Unclipped],
        prim_store: PrimitiveStoreContents { pictures: Seq::empty(), records: Seq::empty() },
        hit_testing_runs: Seq::empty(),
        clip_nodes: Seq::empty(),
        requests,
        root_pic_index: PictureIndex { index: 0 },
    }
}

impl<'a> FlattenerState<'a> {
    /// The flattening that begins with the root pipeline: the root of the scene
    /// is added, a stacking context is started for the whole display list, and
    /// the first item comes next.
    pub open spec fn begin(self) -> Flattening<'a> {
        let pipeline = root_pipeline(self.scene);
        Flattening {
            state: self.push_root(
                self.scene.root_pipeline_id->0,
                pipeline.viewport_size,
                pipeline.content_size,
            ).push_stacking_context(
                pipeline.pipeline_id,
                CompositeOps::spec_nothing(),
                TransformStyle::Flat,
                true,
                false,
                root_spatial_node_index(),
                ClipChainId::Unclipped,
                RasterSpace::Screen,
            ),
            frames: seq![
                Frame {
                    kind: FrameKind::Root,
                    list: &pipeline.display_list,
                    cursor: 0,
                    pipeline_id: pipeline.pipeline_id,
                    offset: LayoutVector2D::Zero,
                    apply_pipeline_clip: true,
                },
            ],
        }
    }
}

/// Flattening begins with a sound scene.
pub proof fn law_begin_wf<'a>(
    scene: &'a Scene,
    font_instances: &'a HashMap<u64, BaseFontInstance>,
    output_pipelines: &'a HashSet<u64>,
    config: FrameBuilderConfig,
    requests: Seq<InternRequest<'a>>,
)
    requires
        has_root_pipeline(scene),
    ensures
        empty_state(scene, font_instances, output_pipelines, config, requests).begin().wf(),
{
    let empty = empty_state(scene, font_instances, output_pipelines, config, requests);
    let pipeline = root_pipeline(scene);
    let root_id = scene.root_pipeline_id->0;
    let rooted = empty.push_root(root_id, pipeline.viewport_size, pipeline.content_size);
    assert(rooted.tree.len() == 2);
    assert(rooted.tree[1].parent == Some(root_spatial_node_index()));
    assert forall|id: ClipId| rooted.mapping.clips.contains_key(id) implies clip_stored(
        #[trigger] rooted.mapping.clips[id],
        rooted.clip_nodes,
    ) by {
        assert(id == ClipId::root(root_id));
    }
    assert(rooted.wf());
    assert(rooted.references_ok());
    law_push_stacking_context_wf(
        rooted,
        pipeline.pipeline_id,
        CompositeOps::spec_nothing(),
        TransformStyle::Flat,
        true,
        false,
        root_spatial_node_index(),
        ClipChainId::Unclipped,
        RasterSpace::Screen,
    );
    let begun = empty.begin();
    assert(begun.state.references_ok());
    assert(begun.frames.drop_last() =~= Seq::empty());
    reveal_with_fuel(contexts_open, 2);
    reveal_with_fuel(iframes_open, 2);
    assert forall|i: int| 0 <= i < begun.frames.len() implies #[trigger] frame_ok_at(
        begun.frames,
        i,
    ) by {}
}

impl<'a> DisplayListFlattener<'a> {
    /// Begins to flatten a scene. The positioning tree is one without nodes.
    pub fn begin(
        scene: &'a Scene,
        clip_scroll_tree: ClipScrollTree,
        font_instances: &'a HashMap<u64, BaseFontInstance>,
        output_pipelines: &'a HashSet<u64>,
        frame_builder_config: &FrameBuilderConfig,
        intern_log: InternLog<'a>,
    ) -> (r: Result<(DisplayListFlattener<'a>, Traversal<'a>), FlattenError>)
        requires
            clip_scroll_tree@.len() == 0,
        ensures
            r matches Err(error) ==> error == FlattenError::NoRootPipeline,
            r is Err <==> !has_root_pipeline(scene),
            r matches Ok((flattener, traversal)) ==> {
                &&& flattening(flattener@, traversal@) == empty_state(
                    scene,
                    font_instances,
                    output_pipelines,
                    *frame_builder_config,
                    intern_log@,
                ).begin()
                &&& flattening(flattener@, traversal@).wf()
            },
    {
        broadcast use vstd::std_specs::hash::group_hash_axioms;

        let root_pipeline_id = match scene.root_pipeline_id {
            Some(id) => id,
            None => {
                return Err(FlattenError::NoRootPipeline);
            },
        };
        let pipeline: &'a ScenePipeline = match scene.pipelines.get(&root_pipeline_id.key()) {
            Some(pipeline) => pipeline,
            None => {
                return Err(FlattenError::NoRootPipeline);
            },
        };
        let mut pipeline_clip_chain_stack: Vec<ClipChainId> = Vec::new();
        pipeline_clip_chain_stack.push(ClipChainId::Unclipped);
        let mut flattener = DisplayListFlattener {
            scene,
            clip_scroll_tree,
            font_instances,
            output_pipelines,
            id_to_index_mapper: NodeIdToIndexMapper::default(),
            sc_stack: Vec::new(),
            pending_shadow_items: VecDeque::new(),
            pipeline_clip_chain_stack,
            prim_store: PrimitiveStore::new(),
            hit_testing_runs: Vec::new(),
            clip_store: ClipStore::new(),
            config: *frame_builder_config,
            intern_log,
            root_pic_index: PictureIndex { index: 0 },
        };
        assert(flattener@ =~= empty_state(
            scene,
            font_instances,
            output_pipelines,
            *frame_builder_config,
            intern_log@,
        )) by {
            assert(flattener@.tree =~= Seq::empty());
            assert(flattener@.sc_stack =~= Seq::empty());
            assert(flattener@.pending_shadow_items =~= Seq::empty());
            assert(flattener@.hit_testing_runs =~= Seq::empty());
            assert(flattener@.pipeline_clip_chain_stack =~= seq![ClipChainId::Unclipped]);
        }
        flattener.push_root(root_pipeline_id, &pipeline.viewport_size, &pipeline.content_size);

        // One root stacking context for the whole display list makes sure that
        // there is always one to add primitives to. There is none for iframes:
        // these are contained in a stacking context.
        flattener.push_stacking_context(
            pipeline.pipeline_id,
            CompositeOps::nothing(),
            TransformStyle::Flat,
            true,
            false,
            root_spatial_node_index(),
            ClipChainId::Unclipped,
            RasterSpace::Screen,
        );
        let mut frames: Vec<Frame<'a>> = Vec::new();
        frames.push(
            Frame {
                kind: FrameKind::Root,
                list: &pipeline.display_list,
                cursor: 0,
                pipeline_id: pipeline.pipeline_id,
                offset: LayoutVector2D::Zero,
                apply_pipeline_clip: true,
            },
        );
        proof {
            law_begin_wf(
                scene,
                font_instances,
                output_pipelines,
                *frame_builder_config,
                intern_log@,
            );
            assert(frames@ =~= empty_state(
                scene,
                font_instances,
                output_pipelines,
                *frame_builder_config,
                intern_log@,
            ).begin().frames);
        }
        Ok((flattener, Traversal { frames }))
    }

    /// Ends the flattening of a scene, when no stacking context is left: makes a
    /// frame builder of what was collected, and hands back the scene that it was
    /// made from, the positioning tree and the interned data.
    pub fn create_frame_builder(self, view: &DocumentView) -> (r: FlattenedScene<'a>)
        requires
            has_root_pipeline(self@.scene),
            self@.sc_stack.len() == 0,
        ensures
            r.frame_builder.screen_rect == view.inner_rect,
            r.frame_builder.window_size == view.window_size,
            r.frame_builder.background_color == drawn_background(
                root_pipeline(self@.scene).background_color,
            ),
            runs_of(r.frame_builder.hit_testing_runs@) == self@.hit_testing_runs,
            r.frame_builder.prim_store@ == self@.prim_store,
            r.frame_builder.clip_store@ == self@.clip_nodes,
            r.frame_builder.root_pic_index == self@.root_pic_index,
            r.frame_builder.config == self@.config,
            r.scene.root_pipeline_id == self@.scene.root_pipeline_id,
            r.scene.pipelines == &self@.scene.pipelines,
            r.scene.pipeline_epochs == &self@.scene.pipeline_epochs,
            r.clip_scroll_tree@ == self@.tree,
            r.intern_log@ == self@.requests,
    {
        broadcast use vstd::std_specs::hash::group_hash_axioms;

        let root_pipeline_id = self.scene.root_pipeline_id.unwrap();
        let pipeline: &ScenePipeline = self.scene.pipelines.get(&root_pipeline_id.key()).unwrap();
        let background_color = match pipeline.background_color {
            Some(color) => if color.a.exceeds(F32::zero()) {
                Some(color)
            } else {
                None
            },
            None => None,
        };
        FlattenedScene {
            frame_builder: FrameBuilder {
                screen_rect: view.inner_rect,
                background_color,
                window_size: view.window_size,
                hit_testing_runs: self.hit_testing_runs,
                prim_store: self.prim_store,
                clip_store: self.clip_store,
                root_pic_index: self.root_pic_index,
                config: self.config,
            },
            scene: BuiltScene {
                root_pipeline_id: Some(root_pipeline_id),
                pipelines: &self.scene.pipelines,
                pipeline_epochs: &self.scene.pipeline_epochs,
            },
            clip_scroll_tree: self.clip_scroll_tree,
            intern_log: self.intern_log,
        }
    }
}

} // verus!
