//! What is held is what is spoken of: the values that contracts speak of have the
//! fields of the values that they stand for.
use vstd::prelude::*;
use vstd::std_specs::convert::FromSpec;

use crate::flattener::DisplayListFlattener;
use crate::hit_test::{runs_of, HeldRun};
use crate::picture::{InstanceList, Picture3DContext, PicturePrimitive, PrimitiveStore};
use crate::primitives::{Image, LineDecoration, NormalBorderPrim, PrimitiveKeyKind, TextRun};
use crate::shadows::{PendingPrimitive, ShadowItem};
use crate::stacking_context::HeldContext;
use crate::state::FlattenerState;
use crate::traversal::{flattening, outcome, FlattenError, FlattenStep, Traversal};

verus! {

/// A relation to a 3D hierarchy is spoken of as it is held.
pub proof fn law_3d_context_as_held(held: Picture3DContext<InstanceList>)
    ensures
        match (held, held@) {
            (Picture3DContext::Out, Picture3DContext::Out) => true,
            (
                Picture3DContext::In { root_data: a, ancestor_index: x },
                Picture3DContext::In { root_data: b, ancestor_index: y },
            ) => x == y && match (a, b) {
                (Some(list), Some(spoken)) => list@ == spoken,
                (None, None) => true,
                _ => false,
            },
            _ => false,
        },
{
}

/// A picture is spoken of as it is held.
pub proof fn law_picture_as_held(held: PicturePrimitive<InstanceList>)
    ensures
        held@.requested_composite_mode == held.requested_composite_mode,
        held@.context_3d == held.context_3d@,
        held@.pipeline_id == held.pipeline_id,
        held@.frame_output_pipeline_id == held.frame_output_pipeline_id,
        held@.apply_local_clip_rect == held.apply_local_clip_rect,
        held@.requested_raster_space == held.requested_raster_space,
        held@.prim_list == held.prim_list@,
        held@.spatial_node_index == held.spatial_node_index,
        held@.local_clip_rect == held.local_clip_rect,
        held@.tile_cache == held.tile_cache,
        held@.options == held.options,
        held@.optimize == held.optimize,
{
}

/// A stacking context is spoken of as it is held.
pub proof fn law_context_as_held(held: HeldContext)
    ensures
        held@.primitives == held.primitives@,
        held@.is_backface_visible == held.is_backface_visible,
        held@.requested_raster_space == held.requested_raster_space,
        held@.spatial_node_index == held.spatial_node_index,
        held@.clip_chain_id == held.clip_chain_id,
        held@.frame_output_pipeline_id == held.frame_output_pipeline_id,
        held@.composite_ops.filters == held.composite_ops.filters@,
        held@.composite_ops.mix_blend_mode == held.composite_ops.mix_blend_mode,
        held@.blit_reason == held.blit_reason,
        held@.pipeline_id == held.pipeline_id,
        held@.transform_style == held.transform_style,
        held@.context_3d == held.context_3d@,
        held@.create_tile_cache == held.create_tile_cache,
{
}

/// The primitive store is spoken of as it is held.
pub proof fn law_store_as_held(held: PrimitiveStore, i: int)
    ensures
        held@.pictures.len() == held.pictures@.len(),
        0 <= i < held.pictures@.len() ==> held@.pictures[i] == held.pictures@[i]@,
        held@.records == held.records@,
{
}

/// Runs of areas are spoken of as they are held.
pub proof fn law_runs_as_held(held: Seq<HeldRun>, i: int)
    ensures
        runs_of(held).len() == held.len(),
        0 <= i < held.len() ==> runs_of(held)[i].items == held[i].items@
            && runs_of(held)[i].clip_and_scroll == held[i].clip_and_scroll,
{
}

/// A flattener is spoken of as it is held.
pub proof fn law_flattener_as_held(held: &DisplayListFlattener, i: int)
    ensures
        held@.scene == held.scene,
        held@.font_instances == held.font_instances,
        held@.output_pipelines == held.output_pipelines,
        held@.config == held.config,
        held@.tree == held.clip_scroll_tree.spatial_nodes@,
        held@.mapping == held.id_to_index_mapper@,
        held@.sc_stack.len() == held.sc_stack@.len(),
        0 <= i < held.sc_stack@.len() ==> held@.sc_stack[i] == held.sc_stack@[i]@,
        held@.pending_shadow_items == held.pending_shadow_items@,
        held@.pipeline_clip_chain_stack == held.pipeline_clip_chain_stack@,
        held@.prim_store == held.prim_store@,
        held@.hit_testing_runs == runs_of(held.hit_testing_runs@),
        held@.clip_nodes == held.clip_store.clip_chain_nodes@,
        held@.requests == held.intern_log.requests@,
        held@.root_pic_index == held.root_pic_index,
{
}

/// A state and frames make a flattening of these, and a result an outcome.
pub proof fn law_flattening_of_parts<'a>(
    state: FlattenerState<'a>,
    traversal: Traversal<'a>,
    result: Result<FlattenStep, FlattenError>,
)
    ensures
        traversal@ == traversal.frames@,
        flattening(state, traversal@).state == state,
        flattening(state, traversal@).frames == traversal@,
        outcome(state, traversal@, result).flattening.state == state,
        outcome(state, traversal@, result).flattening.frames == traversal@,
        outcome(state, traversal@, result).result == result,
{
}

/// A primitive that has to wait waits as it is.
pub proof fn law_waits_as_it_is<'a>(
    image: PendingPrimitive<Image>,
    line: PendingPrimitive<LineDecoration>,
    border: PendingPrimitive<NormalBorderPrim>,
    rectangle: PendingPrimitive<PrimitiveKeyKind>,
    text: PendingPrimitive<TextRun<'a>>,
)
    ensures
        <ShadowItem<'a> as FromSpec<PendingPrimitive<Image>>>::from_spec(image)
            == ShadowItem::<'a>::Image(image),
        <ShadowItem<'a> as FromSpec<PendingPrimitive<LineDecoration>>>::from_spec(line)
            == ShadowItem::<'a>::LineDecoration(line),
        <ShadowItem<'a> as FromSpec<PendingPrimitive<NormalBorderPrim>>>::from_spec(border)
            == ShadowItem::<'a>::NormalBorder(border),
        <ShadowItem<'a> as FromSpec<PendingPrimitive<PrimitiveKeyKind>>>::from_spec(rectangle)
            == ShadowItem::<'a>::Primitive(rectangle),
        <ShadowItem<'a> as FromSpec<PendingPrimitive<TextRun<'a>>>>::from_spec(text)
            == ShadowItem::<'a>::TextRun(text),
{
}

} // verus!
