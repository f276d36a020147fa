use std::collections::{HashMap, HashSet};

use display_list_flattener::clip_store::{
    BorderRadius, ClipItemKey, ClipMode, ComplexClipRegion, ImageMask,
};
use display_list_flattener::display_list::{
    BorderDetails, BorderDisplayItem, BoxShadowClipMode, BoxShadowDisplayItem, DisplayItem,
    FontInstanceKey, Gradient, NinePatchBorder, NinePatchBorderSource, RadialGradientSpec,
    ReferenceFrame, Scene, ScenePipeline, SpaceAndClipInfo, SpecificDisplayItem, StackingContext,
};
use display_list_flattener::flattener::DisplayListFlattener;
use display_list_flattener::frame_builder::{
    DocumentView, FlattenedScene, ViewRect, ViewSize,
};
use display_list_flattener::ids::{
    ApiClipChainId, ClipChainId, ClipId, ExternalScrollId, ImageKey, PictureIndex, PipelineId,
    SpatialId, SpatialNodeIndex,
};
use display_list_flattener::layout::{
    ColorF, F32, LayoutPoint, LayoutRect, LayoutSize, LayoutVector2D, PointF, RectF, Scalar,
    SizeF, VectorF,
};
use display_list_flattener::picture::{
    FilterOp, MixBlendMode, Picture3DContext, PictureCompositeMode, PrimitiveInstance,
    PrimitiveInstanceKind, RasterSpace,
};
use display_list_flattener::primitives::{
    BaseFontInstance, ColorU, ExtendMode, FontKey, FontRenderMode, GlyphInstance, GlyphOptions,
    GradientStop, InternRequest, InternLog, ItemTag, LineOrientation, LineStyle, NormalBorder,
    Primitive, RepeatMode, Shadow, SideOffsetsF, SideOffsetsI,
};
use display_list_flattener::spatial_tree::{
    ClipScrollTree, ReferenceFrameKind, ScrollFrameKind, ScrollSensitivity, SourceTransform,
    SpatialNodeType, StickyMargins, StickyOffsetBounds, TransformStyle,
};
use display_list_flattener::state::FrameBuilderConfig;
use display_list_flattener::traversal::{FlattenError, FlattenStep};

fn f(value: f32) -> F32 {
    F32 { bits: value.to_bits() }
}

fn point(x: f32, y: f32) -> PointF {
    PointF { x: f(x), y: f(y) }
}

fn size(width: f32, height: f32) -> SizeF {
    SizeF { width: f(width), height: f(height) }
}

fn rect(x: f32, y: f32, width: f32, height: f32) -> RectF {
    RectF { origin: point(x, y), size: size(width, height) }
}

fn color(a: f32) -> ColorF {
    ColorF { r: f(1.0), g: f(0.5), b: f(0.0), a: f(a) }
}

fn pipeline(index: u32) -> PipelineId {
    PipelineId { namespace: 3, index }
}

fn spatial(id: u64) -> SpatialId {
    SpatialId { id, pipeline_id: pipeline(1) }
}

fn clip(id: u64) -> ClipId {
    ClipId::Clip(id, pipeline(1))
}

fn chain(id: u64) -> ApiClipChainId {
    ApiClipChainId { id, pipeline_id: pipeline(1) }
}

fn item(item: SpecificDisplayItem) -> DisplayItem {
    item_at(1, item)
}

fn item_at(spatial_id: u64, item: SpecificDisplayItem) -> DisplayItem {
    DisplayItem {
        rect: rect(10.0, 20.0, 30.0, 40.0),
        clip_rect: rect(11.0, 21.0, 31.0, 41.0),
        is_backface_visible: true,
        tag: None,
        space_and_clip: SpaceAndClipInfo {
            spatial_id: spatial(spatial_id),
            clip_id: ClipId::root(pipeline(1)),
        },
        item,
    }
}

fn rectangle(a: f32) -> SpecificDisplayItem {
    SpecificDisplayItem::Rectangle { color: color(a), draws: true }
}

fn plain_context() -> StackingContext {
    StackingContext {
        transform_style: TransformStyle::Flat,
        mix_blend_mode: None,
        clip_id: None,
        raster_space: RasterSpace::Screen,
        cache_tiles: false,
    }
}

fn push(stacking_context: StackingContext, filters: Vec<FilterOp>) -> DisplayItem {
    item(SpecificDisplayItem::PushStackingContext { stacking_context, filters })
}

fn pop() -> DisplayItem {
    item(SpecificDisplayItem::PopStackingContext)
}

fn shadow(blur: f32) -> Shadow {
    Shadow {
        offset: VectorF { x: f(2.0), y: f(3.0) },
        color: color(0.5),
        blur_radius: f(blur),
        should_inflate: true,
    }
}

fn scroll_frame(id: u64, parent: u64, external: Option<u64>) -> DisplayItem {
    item_at(
        parent,
        SpecificDisplayItem::ScrollFrame {
            clip_id: clip(100 + id),
            scroll_frame_id: spatial(id),
            external_id: external
                .map(|id| ExternalScrollId { id, pipeline_id: pipeline(1) }),
            scroll_sensitivity: ScrollSensitivity::Script,
            image_mask: None,
            complex_clips: Vec::new(),
        },
    )
}

fn scene_pipeline(index: u32, display_list: Vec<DisplayItem>) -> ScenePipeline {
    ScenePipeline {
        pipeline_id: pipeline(index),
        viewport_size: size(800.0, 600.0),
        content_size: size(800.0, 2000.0),
        background_color: Some(color(1.0)),
        display_list,
    }
}

fn scene(lists: Vec<Vec<DisplayItem>>) -> Scene {
    let mut pipelines = HashMap::new();
    let mut index: u32 = 1;
    for list in lists {
        pipelines.insert(pipeline(index).key(), scene_pipeline(index, list));
        index += 1;
    }
    Scene {
        root_pipeline_id: Some(pipeline(1)),
        pipelines,
        pipeline_epochs: HashMap::new(),
    }
}

fn config(enable_picture_caching: bool) -> FrameBuilderConfig {
    FrameBuilderConfig {
        default_font_render_mode: FontRenderMode::Subpixel,
        enable_picture_caching,
    }
}

struct Embedder {
    fonts: HashMap<u64, BaseFontInstance>,
    outputs: HashSet<u64>,
    caching: bool,
    identity: bool,
}

fn embedder() -> Embedder {
    Embedder { fonts: HashMap::new(), outputs: HashSet::new(), caching: false, identity: true }
}

/// Flattens a scene; gives, besides, what the embedder was asked to draw.
fn flatten<'a>(
    scene: &'a Scene,
    embedder: &'a Embedder,
) -> Result<(FlattenedScene<'a>, Vec<String>), FlattenError> {
    let (mut flattener, mut traversal) = DisplayListFlattener::begin(
        scene,
        ClipScrollTree::new(),
        &embedder.fonts,
        &embedder.outputs,
        &config(embedder.caching),
        InternLog::new(),
    )?;
    let mut requests = Vec::new();
    loop {
        match flattener.flatten_items(&mut traversal)? {
            FlattenStep::Continue => {}
            FlattenStep::CloseStackingContext { .. } => {
                flattener.end_stacking_context(&mut traversal, embedder.identity)?;
            }
            FlattenStep::BoxShadow(request) => requests.push(format!("{:?}", request)),
            FlattenStep::NormalBorder(request) => requests.push(format!("{:?}", request)),
            FlattenStep::OptimizePictures { .. } => {
                unreachable!("pictures are marked where a stacking context is ended")
            }
            FlattenStep::Finished => break,
        }
    }
    assert_eq!(flattener.sc_stack.len(), 0);
    assert_eq!(flattener.pipeline_clip_chain_stack, vec![ClipChainId::Unclipped]);
    let view = DocumentView {
        inner_rect: ViewRect { x: 1, y: 2, width: 3, height: 4 },
        window_size: ViewSize { width: 5, height: 6 },
    };
    Ok((flattener.create_frame_builder(&view), requests))
}

fn flattened<'a>(scene: &'a Scene, embedder: &'a Embedder) -> FlattenedScene<'a> {
    match flatten(scene, embedder) {
        Ok((built, _)) => built,
        Err(error) => panic!("the display list is sound: {:?}", error),
    }
}

fn error_of(list: Vec<DisplayItem>) -> FlattenError {
    let scene = scene(vec![list]);
    let embedder = embedder();
    let result = flatten(&scene, &embedder);
    match result {
        Ok(_) => panic!("the display list is not sound"),
        Err(error) => error,
    }
}

fn root_list<'a, 'b>(built: &'b FlattenedScene<'a>) -> &'b Vec<PrimitiveInstance> {
    let root = built.frame_builder.root_pic_index.index;
    &built.frame_builder.prim_store.pictures[root].prim_list
}

fn picture_of(instance: &PrimitiveInstance) -> usize {
    match instance.kind {
        PrimitiveInstanceKind::Picture { pic_index, .. } => pic_index.index,
        _ => panic!("not a picture"),
    }
}

fn primitives<'a, 'b>(built: &'b FlattenedScene<'a>) -> Vec<&'b Primitive<'a>> {
    built
        .intern_log
        .requests
        .iter()
        .filter_map(|request| match request {
            InternRequest::Primitive { prim, .. } => Some(prim),
            _ => None,
        })
        .collect()
}

#[test]
fn an_empty_scene() {
    let scene = scene(vec![Vec::new()]);
    let embedder = embedder();
    let built = flattened(&scene, &embedder);
    assert_eq!(built.frame_builder.root_pic_index.index, 0);
    assert_eq!(built.frame_builder.prim_store.pictures.len(), 1);
    let root = &built.frame_builder.prim_store.pictures[0];
    assert_eq!(root.prim_list.len(), 0);
    assert!(root.requested_composite_mode.is_none());
    assert_eq!(root.pipeline_id, pipeline(1));
    assert!(matches!(root.context_3d, Picture3DContext::Out));
    assert_eq!(built.clip_scroll_tree.spatial_nodes.len(), 2);
    assert_eq!(built.clip_scroll_tree.spatial_nodes[0].parent, None);
    assert_eq!(
        built.clip_scroll_tree.spatial_nodes[1].parent,
        Some(SpatialNodeIndex { index: 0 })
    );
    match &built.clip_scroll_tree.spatial_nodes[1].node_type {
        SpatialNodeType::ScrollFrame(info) => {
            assert!(matches!(info.frame_kind, ScrollFrameKind::PipelineRoot));
            assert_eq!(
                info.external_id,
                Some(ExternalScrollId { id: 0, pipeline_id: pipeline(1) })
            );
        }
        _ => panic!("the second node is the root scroll frame"),
    }
    assert_eq!(built.frame_builder.screen_rect.height, 4);
    assert_eq!(built.frame_builder.window_size.width, 5);
    assert!(built.frame_builder.background_color.is_some());
    assert_eq!(built.scene.root_pipeline_id, Some(pipeline(1)));
    assert_eq!(built.scene.pipelines.len(), 1);
}

#[test]
fn a_transparent_background_is_not_drawn() {
    let mut scene = scene(vec![Vec::new()]);
    let mut root = scene_pipeline(1, Vec::new());
    root.background_color = Some(color(0.0));
    scene.pipelines.insert(pipeline(1).key(), root);
    let embedder = embedder();
    assert!(flattened(&scene, &embedder).frame_builder.background_color.is_none());
}

#[test]
fn a_scene_needs_a_root_pipeline() {
    let embedder = embedder();
    let mut without_id = scene(vec![Vec::new()]);
    without_id.root_pipeline_id = None;
    assert!(matches!(flatten(&without_id, &embedder), Err(FlattenError::NoRootPipeline)));
    let mut missing = scene(vec![Vec::new()]);
    missing.root_pipeline_id = Some(pipeline(9));
    assert!(matches!(flatten(&missing, &embedder), Err(FlattenError::NoRootPipeline)));
}

#[test]
fn a_rectangle_is_interned_hit_and_drawn() {
    let mut tagged = item(rectangle(1.0));
    tagged.tag = Some(ItemTag { value: 42, flags: 7 });
    let scene = scene(vec![vec![tagged]]);
    let embedder = embedder();
    let built = flattened(&scene, &embedder);
    assert_eq!(root_list(&built).len(), 1);
    let drawn = &root_list(&built)[0];
    assert_eq!(drawn.spatial_node_index.index, 1);
    assert_eq!(drawn.clip_chain_id, ClipChainId::Unclipped);
    let moved = LayoutRect::Translated(
        Box::new(LayoutRect::Value(rect(10.0, 20.0, 30.0, 40.0))),
        Box::new(LayoutVector2D::Zero),
    );
    assert_eq!(
        format!("{:?}", drawn.prim_origin),
        format!("{:?}", LayoutPoint::OriginOf(Box::new(moved)))
    );
    assert!(matches!(
        primitives(&built)[0],
        Primitive::Rectangle(
            display_list_flattener::primitives::PrimitiveKeyKind::Rectangle { shadow: None, .. }
        )
    ));
    assert_eq!(built.frame_builder.hit_testing_runs.len(), 1);
    assert_eq!(built.frame_builder.hit_testing_runs[0].items[0].tag.value, 42);
    assert_eq!(built.frame_builder.prim_store.records.len(), 1);
}

#[test]
fn a_transparent_rectangle_is_only_hit() {
    for alpha in [0.0, -0.0] {
        let mut tagged = item(rectangle(alpha));
        tagged.tag = Some(ItemTag { value: 42, flags: 7 });
        let scene = scene(vec![vec![tagged]]);
        let embedder = embedder();
        let built = flattened(&scene, &embedder);
        assert_eq!(root_list(&built).len(), 0);
        assert_eq!(primitives(&built).len(), 0);
        assert_eq!(built.frame_builder.hit_testing_runs[0].items[0].tag.value, 42);
    }
}

#[test]
fn a_clear_rectangle() {
    let scene = scene(vec![vec![item(SpecificDisplayItem::ClearRectangle { draws: true })]]);
    let embedder = embedder();
    let built = flattened(&scene, &embedder);
    assert!(matches!(
        primitives(&built)[0],
        Primitive::Rectangle(
            display_list_flattener::primitives::PrimitiveKeyKind::Clear { .. }
        )
    ));
}

#[test]
fn unknown_ids_are_errors() {
    assert_eq!(error_of(vec![item_at(77, rectangle(1.0))]), FlattenError::UnknownSpatialNode);
    let mut clipped = item(rectangle(1.0));
    clipped.space_and_clip.clip_id = clip(5);
    assert_eq!(error_of(vec![clipped]), FlattenError::UnknownClip);

    let mut context = plain_context();
    context.clip_id = Some(clip(5));
    assert_eq!(
        error_of(vec![push(context, Vec::new()), item(rectangle(1.0)), pop()]),
        FlattenError::UnknownClip
    );

    let by_parent = SpecificDisplayItem::ClipChain {
        id: chain(1),
        parent: Some(chain(2)),
        clip_ids: Vec::new(),
    };
    assert_eq!(error_of(vec![item(by_parent)]), FlattenError::UnknownClip);
    let by_member = SpecificDisplayItem::ClipChain {
        id: chain(1),
        parent: None,
        clip_ids: vec![ClipId::root(pipeline(1)), clip(6)],
    };
    assert_eq!(error_of(vec![item(by_member)]), FlattenError::UnknownClip);

    let mut invalid = item(SpecificDisplayItem::Clip {
        id: clip(7),
        image_mask: None,
        complex_clips: Vec::new(),
    });
    invalid.space_and_clip.clip_id = ClipId::Clip(u64::MAX, pipeline(1));
    assert_eq!(error_of(vec![invalid]), FlattenError::UnknownClip);

    let mut scrolled = scroll_frame(8, 1, None);
    scrolled.space_and_clip.clip_id = ClipId::Clip(u64::MAX, pipeline(1));
    assert_eq!(error_of(vec![scrolled]), FlattenError::UnknownClip);
}

#[test]
fn an_error_changes_nothing() {
    let scene = scene(vec![vec![item(rectangle(1.0)), item_at(77, rectangle(1.0))]]);
    let embedder = embedder();
    let (mut flattener, mut traversal) = DisplayListFlattener::begin(
        &scene,
        ClipScrollTree::new(),
        &embedder.fonts,
        &embedder.outputs,
        &config(false),
        InternLog::new(),
    )
    .unwrap_or_else(|_| panic!("there is a root pipeline"));
    assert!(matches!(flattener.flatten_items(&mut traversal), Ok(FlattenStep::Continue)));
    for _ in 0..2 {
        assert!(matches!(
            flattener.flatten_items(&mut traversal),
            Err(FlattenError::UnknownSpatialNode)
        ));
        assert_eq!(traversal.frames[0].cursor, 1);
        assert_eq!(flattener.intern_log.requests.len(), 1);
    }
}

#[test]
fn an_invalid_clip_is_kept_as_such() {
    let mut unclipped = item(rectangle(1.0));
    unclipped.space_and_clip.clip_id = ClipId::Clip(u64::MAX, pipeline(1));
    let scene = scene(vec![vec![unclipped]]);
    let embedder = embedder();
    let built = flattened(&scene, &embedder);
    assert_eq!(root_list(&built)[0].clip_chain_id, ClipChainId::Invalid);
}

#[test]
fn a_redundant_context_dissolves() {
    let scene = scene(vec![vec![
        item(rectangle(0.1)),
        push(plain_context(), Vec::new()),
        item(rectangle(0.2)),
        item(rectangle(0.3)),
        pop(),
        item(rectangle(0.4)),
    ]]);
    let mut embedder = embedder();
    {
        let built = flattened(&scene, &embedder);
        assert_eq!(built.frame_builder.prim_store.pictures.len(), 1);
        assert_eq!(root_list(&built).len(), 4);
    }
    // Under a transform it is needed.
    embedder.identity = false;
    let built = flattened(&scene, &embedder);
    assert_eq!(built.frame_builder.prim_store.pictures.len(), 2);
    assert_eq!(built.frame_builder.root_pic_index.index, 1);
    assert_eq!(root_list(&built).len(), 3);
    assert_eq!(picture_of(&root_list(&built)[1]), 0);
    assert_eq!(built.frame_builder.prim_store.pictures[0].prim_list.len(), 2);
}

#[test]
fn an_empty_context_is_skipped() {
    let mut context = plain_context();
    context.clip_id = Some(clip(99));
    let scene = scene(vec![vec![
        push(context, vec![FilterOp::Given(1)]),
        pop(),
        item(rectangle(0.2)),
        push(context, Vec::new()),
    ]]);
    let embedder = embedder();
    let built = flattened(&scene, &embedder);
    assert_eq!(built.frame_builder.prim_store.pictures.len(), 1);
    assert_eq!(root_list(&built).len(), 1);
}

#[test]
fn filters_and_blending_nest() {
    let mut context = plain_context();
    context.mix_blend_mode = Some(MixBlendMode { number: 4 });
    let scene = scene(vec![vec![
        item(rectangle(0.1)),
        push(context, vec![FilterOp::Given(1), FilterOp::Given(2)]),
        item(rectangle(0.2)),
        pop(),
    ]]);
    let embedder = embedder();
    let built = flattened(&scene, &embedder);
    let pictures = &built.frame_builder.prim_store.pictures;
    assert_eq!(pictures.len(), 5);
    assert!(pictures[0].requested_composite_mode.is_none());
    assert!(!pictures[0].optimize);
    for (i, number) in [(1, 1), (2, 2)] {
        assert!(pictures[i].optimize);
        match pictures[i].requested_composite_mode {
            Some(PictureCompositeMode::Filter(filter)) => {
                assert!(matches!(filter.filter, FilterOp::Given(n) if n == number));
            }
            _ => panic!("a filter makes a picture"),
        }
        assert_eq!(pictures[i].prim_list.len(), 1);
        assert_eq!(picture_of(&pictures[i].prim_list[0]), i - 1);
    }
    assert!(matches!(
        pictures[3].requested_composite_mode,
        Some(PictureCompositeMode::MixBlend(MixBlendMode { number: 4 }))
    ));
    assert!(!pictures[3].optimize);
    assert_eq!(picture_of(&pictures[3].prim_list[0]), 2);
    assert_eq!(picture_of(&root_list(&built)[1]), 3);
    // The parent is isolated, so that the blending stays inside it.
    match pictures[4].requested_composite_mode {
        Some(PictureCompositeMode::Blit(reason)) => {
            assert!(reason.isolate && !reason.clip && !reason.preserve_3d);
        }
        _ => panic!("the parent is isolated"),
    }
}

#[test]
fn blending_with_nothing_is_skipped() {
    let mut context = plain_context();
    context.mix_blend_mode = Some(MixBlendMode { number: 4 });
    let scene = scene(vec![vec![
        push(context, vec![FilterOp::Given(1)]),
        item(rectangle(0.2)),
        pop(),
    ]]);
    let embedder = embedder();
    let built = flattened(&scene, &embedder);
    assert_eq!(built.frame_builder.prim_store.pictures.len(), 3);
    assert!(built.frame_builder.prim_store.pictures[2].requested_composite_mode.is_none());
}

#[test]
fn a_clipped_context_has_a_surface_and_clips_its_picture() {
    let mut context = plain_context();
    context.clip_id = Some(clip(5));
    let scene = scene(vec![vec![
        item(SpecificDisplayItem::Clip {
            id: clip(5),
            image_mask: None,
            complex_clips: Vec::new(),
        }),
        push(context, Vec::new()),
        item(rectangle(0.2)),
        pop(),
    ]]);
    let embedder = embedder();
    let built = flattened(&scene, &embedder);
    let pictures = &built.frame_builder.prim_store.pictures;
    assert_eq!(pictures.len(), 2);
    match pictures[0].requested_composite_mode {
        Some(PictureCompositeMode::Blit(reason)) => assert!(reason.clip && !reason.isolate),
        _ => panic!("a clip needs a surface"),
    }
    assert_eq!(root_list(&built)[0].clip_chain_id, ClipChainId::Node(0));
    // Inside, the root clip of the pipeline is not applied again.
    assert_eq!(pictures[0].prim_list[0].clip_chain_id, ClipChainId::Unclipped);
}

#[test]
fn a_3d_hierarchy_is_collected_at_its_root() {
    let mut context = plain_context();
    context.transform_style = TransformStyle::Preserve3D;
    let scene = scene(vec![vec![
        push(context, Vec::new()),
        item(rectangle(0.1)),
        push(plain_context(), Vec::new()),
        item(rectangle(0.2)),
        pop(),
        item(rectangle(0.3)),
        pop(),
    ]]);
    let embedder = embedder();
    let built = flattened(&scene, &embedder);
    let pictures = &built.frame_builder.prim_store.pictures;
    // The flat children before the inner context, that context, the trailing
    // children, the container, and the root of the scene.
    assert_eq!(pictures.len(), 5);
    let lists: Vec<usize> = pictures.iter().map(|picture| picture.prim_list.len()).collect();
    assert_eq!(lists, vec![1, 1, 1, 3, 1]);
    let collected: Vec<usize> = pictures[3].prim_list.iter().map(picture_of).collect();
    assert_eq!(collected, vec![0, 1, 2]);
    for picture in &pictures[0..3] {
        assert!(matches!(
            picture.requested_composite_mode,
            Some(PictureCompositeMode::Blit(reason)) if reason.preserve_3d
        ));
        assert!(matches!(picture.context_3d, Picture3DContext::In { root_data: None, .. }));
    }
    assert!(pictures[3].requested_composite_mode.is_none());
    match &pictures[3].context_3d {
        Picture3DContext::In { root_data: Some(prims), ancestor_index } => {
            assert_eq!(prims.len(), 0);
            assert_eq!(ancestor_index.index, 0);
        }
        _ => panic!("the container is the root of the hierarchy"),
    }
    assert_eq!(picture_of(&root_list(&built)[0]), 3);
}

#[test]
fn a_filter_ends_a_3d_hierarchy() {
    let mut context = plain_context();
    context.transform_style = TransformStyle::Preserve3D;
    let scene = scene(vec![vec![
        push(context, vec![FilterOp::Given(1)]),
        item(rectangle(0.1)),
        pop(),
    ]]);
    let embedder = embedder();
    let built = flattened(&scene, &embedder);
    let pictures = &built.frame_builder.prim_store.pictures;
    assert_eq!(pictures.len(), 3);
    assert!(pictures.iter().all(|picture| matches!(picture.context_3d, Picture3DContext::Out)));
}

#[test]
fn an_output_pipeline_is_marked_at_its_root() {
    let scene = scene(vec![vec![
        push(plain_context(), vec![FilterOp::Given(1)]),
        item(rectangle(0.1)),
        pop(),
    ]]);
    let mut embedder = embedder();
    embedder.outputs.insert(pipeline(1).key());
    let built = flattened(&scene, &embedder);
    let outputs: Vec<Option<PipelineId>> = built
        .frame_builder
        .prim_store
        .pictures
        .iter()
        .map(|picture| picture.frame_output_pipeline_id)
        .collect();
    assert_eq!(outputs, vec![None, None, Some(pipeline(1))]);
}

#[test]
fn offsets_add_up() {
    let frame = SpecificDisplayItem::PushReferenceFrame(ReferenceFrame {
        id: spatial(9),
        kind: ReferenceFrameKind::Perspective,
        transform_style: TransformStyle::Preserve3D,
        transform: SourceTransform::Given(12),
    });
    let scene = scene(vec![vec![
        push(plain_context(), Vec::new()),
        item(frame),
        item_at(9, rectangle(0.1)),
        item(SpecificDisplayItem::PopReferenceFrame),
        item(rectangle(0.2)),
        pop(),
        item(rectangle(0.3)),
    ]]);
    let embedder = embedder();
    let built = flattened(&scene, &embedder);
    let offset = LayoutVector2D::Sum(
        Box::new(LayoutVector2D::Zero),
        Box::new(LayoutVector2D::OfPoint(Box::new(LayoutPoint::Value(point(10.0, 20.0))))),
    );
    match &built.clip_scroll_tree.spatial_nodes[2].node_type {
        SpatialNodeType::ReferenceFrame(info) => {
            let twice = LayoutVector2D::Sum(
                Box::new(offset.copy()),
                Box::new(LayoutVector2D::OfPoint(Box::new(LayoutPoint::Value(point(
                    10.0, 20.0,
                ))))),
            );
            assert_eq!(
                format!("{:?}", info.origin_in_parent_reference_frame),
                format!("{:?}", twice)
            );
            assert!(matches!(info.source_transform, SourceTransform::Given(12)));
            assert!(matches!(info.kind, ReferenceFrameKind::Perspective));
        }
        _ => panic!("a reference frame is added to the tree"),
    }
    let expected = [LayoutVector2D::Zero, offset, LayoutVector2D::Zero];
    for (record, offset) in built.frame_builder.prim_store.records.iter().zip(expected.iter()) {
        assert_eq!(
            format!("{:?}", record.reference_frame_relative_offset),
            format!("{:?}", offset)
        );
    }
    assert_eq!(root_list(&built)[0].spatial_node_index.index, 2);
    assert_eq!(root_list(&built)[1].spatial_node_index.index, 1);
}

#[test]
fn an_iframe_has_its_own_list_and_clip() {
    let mut inner = item(rectangle(0.2));
    inner.space_and_clip = SpaceAndClipInfo {
        spatial_id: SpatialId { id: 1, pipeline_id: pipeline(2) },
        clip_id: ClipId::root(pipeline(2)),
    };
    let scene = scene(vec![
        vec![
            item(rectangle(0.1)),
            item(SpecificDisplayItem::Iframe { pipeline_id: pipeline(2) }),
            item(SpecificDisplayItem::Iframe { pipeline_id: pipeline(8) }),
            item(rectangle(0.3)),
        ],
        vec![inner],
    ]);
    let embedder = embedder();
    let built = flattened(&scene, &embedder);
    assert_eq!(root_list(&built).len(), 3);
    assert_eq!(root_list(&built)[1].clip_chain_id, ClipChainId::Node(0));
    assert_eq!(root_list(&built)[1].spatial_node_index.index, 3);
    assert_eq!(root_list(&built)[2].clip_chain_id, ClipChainId::Unclipped);
    assert_eq!(built.frame_builder.clip_store.clip_chain_nodes.len(), 1);
    assert_eq!(built.clip_scroll_tree.spatial_nodes.len(), 4);
    assert_eq!(built.clip_scroll_tree.spatial_nodes[3].pipeline_id, pipeline(2));
    match &built.clip_scroll_tree.spatial_nodes[3].node_type {
        SpatialNodeType::ScrollFrame(info) => {
            let viewport = LayoutRect::New(
                Box::new(LayoutPoint::Zero),
                Box::new(LayoutSize::Value(size(30.0, 40.0))),
            );
            assert_eq!(format!("{:?}", info.frame_rect), format!("{:?}", viewport));
        }
        _ => panic!("an iframe has a root scroll frame"),
    }
}

#[test]
fn an_iframe_needs_a_known_clip() {
    let mut frame = item(SpecificDisplayItem::Iframe { pipeline_id: pipeline(1) });
    frame.space_and_clip.clip_id = ClipId::Clip(u64::MAX, pipeline(1));
    assert_eq!(error_of(vec![frame]), FlattenError::UnknownClip);
}

#[test]
fn clips_become_chains() {
    let radii = BorderRadius {
        top_left: size(1.0, 1.0),
        top_right: size(1.0, 1.0),
        bottom_left: size(1.0, 1.0),
        bottom_right: size(1.0, 1.0),
    };
    let rounded = |mode| ComplexClipRegion { rect: rect(1.0, 2.0, 3.0, 4.0), radii, mode };
    let mut under = item(rectangle(0.1));
    under.space_and_clip.clip_id = clip(5);
    let mut chained = item(rectangle(0.2));
    chained.space_and_clip.clip_id = ClipId::ClipChain(chain(1));
    let scene = scene(vec![vec![
        item(SpecificDisplayItem::Clip {
            id: clip(5),
            image_mask: Some(ImageMask {
                image: ImageKey { namespace: 1, index: 7 },
                rect: rect(0.0, 0.0, 9.0, 9.0),
                repeat: true,
            }),
            complex_clips: vec![rounded(ClipMode::Clip), rounded(ClipMode::ClipOut)],
        }),
        under,
        item(SpecificDisplayItem::Clip {
            id: clip(6),
            image_mask: None,
            complex_clips: Vec::new(),
        }),
        item(SpecificDisplayItem::ClipChain {
            id: chain(1),
            parent: None,
            clip_ids: vec![clip(5), clip(6)],
        }),
        item(SpecificDisplayItem::ClipChain {
            id: chain(2),
            parent: Some(chain(1)),
            clip_ids: vec![ClipId::ClipChain(chain(1))],
        }),
        chained,
    ]]);
    let embedder = embedder();
    let built = flattened(&scene, &embedder);
    let nodes = &built.frame_builder.clip_store.clip_chain_nodes;
    // Four of the first clip, one of the second, and five copies.
    assert_eq!(nodes.len(), 10);
    let handles: Vec<usize> = nodes.iter().map(|node| node.handle.index).collect();
    assert_eq!(&handles[0..4], &[0, 1, 2, 3]);
    assert_eq!(&handles[5..9], &[3, 2, 1, 0]);
    assert_eq!(handles[9], handles[4]);
    let parents: Vec<ClipChainId> = nodes.iter().map(|node| node.parent_clip_chain_id).collect();
    assert_eq!(parents[0], ClipChainId::Unclipped);
    assert_eq!(parents[3], ClipChainId::Node(2));
    assert_eq!(parents[4], ClipChainId::Unclipped);
    assert_eq!(parents[5], ClipChainId::Unclipped);
    assert_eq!(parents[9], ClipChainId::Node(8));
    assert_eq!(root_list(&built)[0].clip_chain_id, ClipChainId::Node(3));
    assert_eq!(root_list(&built)[1].clip_chain_id, ClipChainId::Node(9));
    let keys: Vec<String> = built
        .intern_log
        .requests
        .iter()
        .filter_map(|request| match request {
            InternRequest::Clip(ClipItemKey::Rectangle(_, ClipMode::Clip)) => {
                Some("rectangle".to_string())
            }
            InternRequest::Clip(ClipItemKey::ImageMask(mask)) => {
                Some(format!("mask {}", mask.image.index))
            }
            InternRequest::Clip(ClipItemKey::RoundedRect(_, _, mode)) => {
                Some(format!("rounded {:?}", mode))
            }
            _ => None,
        })
        .collect();
    assert_eq!(
        keys,
        vec!["rectangle", "mask 7", "rounded Clip", "rounded ClipOut", "rectangle"]
    );
}

#[test]
fn scroll_and_sticky_frames() {
    let scene = scene(vec![vec![
        scroll_frame(9, 1, Some(4)),
        item_at(
            9,
            SpecificDisplayItem::StickyFrame {
                id: spatial(10),
                margins: StickyMargins {
                    top: Some(f(1.0)),
                    right: None,
                    bottom: None,
                    left: None,
                },
                vertical_offset_bounds: StickyOffsetBounds { min: f(0.0), max: f(5.0) },
                horizontal_offset_bounds: StickyOffsetBounds { min: f(0.0), max: f(0.0) },
                previously_applied_offset: VectorF { x: f(0.0), y: f(2.0) },
            },
        ),
        item_at(10, rectangle(0.1)),
    ]]);
    let embedder = embedder();
    let built = flattened(&scene, &embedder);
    let nodes = &built.clip_scroll_tree.spatial_nodes;
    assert_eq!(nodes.len(), 4);
    match &nodes[2].node_type {
        SpatialNodeType::ScrollFrame(info) => {
            assert!(matches!(info.frame_kind, ScrollFrameKind::Explicit));
            assert_eq!(
                info.external_id,
                Some(ExternalScrollId { id: 4, pipeline_id: pipeline(1) })
            );
            assert_eq!(info.content_size.width.bits, 30.0f32.to_bits());
            let clip = LayoutRect::Translated(
                Box::new(LayoutRect::Value(rect(11.0, 21.0, 31.0, 41.0))),
                Box::new(LayoutVector2D::Zero),
            );
            assert_eq!(format!("{:?}", info.frame_rect), format!("{:?}", clip));
        }
        _ => panic!("a scroll frame is added to the tree"),
    }
    assert_eq!(nodes[3].parent, Some(SpatialNodeIndex { index: 2 }));
    assert!(matches!(nodes[3].node_type, SpatialNodeType::StickyFrame(_)));
    assert_eq!(root_list(&built)[0].spatial_node_index.index, 3);
    assert_eq!(built.frame_builder.clip_store.clip_chain_nodes.len(), 1);
}

fn cached_list(nodes: Vec<u64>) -> Vec<DisplayItem> {
    let mut context = plain_context();
    context.cache_tiles = true;
    let mut list = vec![
        scroll_frame(9, 1, None),
        scroll_frame(10, 1, None),
        push(context, Vec::new()),
    ];
    for node in nodes {
        list.push(item_at(node, rectangle(0.1)));
    }
    list.push(pop());
    list
}

#[test]
fn what_scrolls_is_cached() {
    let scene = scene(vec![cached_list(vec![1, 9, 1, 9, 1, 1])]);
    let mut embedder = embedder();
    embedder.caching = true;
    let built = flattened(&scene, &embedder);
    let pictures = &built.frame_builder.prim_store.pictures;
    assert_eq!(pictures.len(), 3);
    assert_eq!(pictures[0].prim_list.len(), 3);
    assert!(matches!(
        pictures[0].requested_composite_mode,
        Some(PictureCompositeMode::TileCache { clear_color }) if clear_color.a.equals(F32::one())
    ));
    match pictures[0].tile_cache {
        Some(cache) => {
            assert_eq!(cache.spatial_node_index.index, 2);
            assert_eq!(cache.root_clip_chain_id, ClipChainId::Unclipped);
        }
        None => panic!("there is a tile cache"),
    }
    assert_eq!(pictures[1].prim_list.len(), 4);
    assert_eq!(picture_of(&pictures[1].prim_list[1]), 0);
    let nodes: Vec<usize> =
        pictures[1].prim_list.iter().map(|prim| prim.spatial_node_index.index).collect();
    assert_eq!(nodes, vec![1, 2, 1, 1]);
}

#[test]
fn without_scrolling_everything_is_cached() {
    let scene = scene(vec![cached_list(vec![1, 1])]);
    let mut embedder = embedder();
    embedder.caching = true;
    let built = flattened(&scene, &embedder);
    let pictures = &built.frame_builder.prim_store.pictures;
    assert_eq!(pictures[0].prim_list.len(), 2);
    assert_eq!(pictures[0].spatial_node_index.index, 0);
    assert_eq!(pictures[1].prim_list.len(), 1);
}

#[test]
fn several_scroll_roots_are_not_cached() {
    let scene = scene(vec![cached_list(vec![1, 9, 10])]);
    let mut embedder = embedder();
    embedder.caching = true;
    let built = flattened(&scene, &embedder);
    let pictures = &built.frame_builder.prim_store.pictures;
    assert_eq!(pictures.len(), 2);
    assert_eq!(pictures[0].prim_list.len(), 3);
    assert!(pictures.iter().all(|picture| picture.tile_cache.is_none()));
}

#[test]
fn caching_can_be_switched_off() {
    let scene = scene(vec![cached_list(vec![1, 9])]);
    let embedder = embedder();
    let built = flattened(&scene, &embedder);
    assert_eq!(built.frame_builder.prim_store.pictures.len(), 2);
    assert_eq!(built.frame_builder.prim_store.pictures[0].prim_list.len(), 2);
}

#[test]
fn a_shadow_shows_what_follows_it() {
    let mut hidden = item(SpecificDisplayItem::Rectangle { color: color(0.3), draws: false });
    hidden.tag = Some(ItemTag { value: 1, flags: 0 });
    let mut shown = item(rectangle(0.2));
    shown.tag = Some(ItemTag { value: 2, flags: 0 });
    let scene = scene(vec![vec![
        item(rectangle(0.1)),
        item(SpecificDisplayItem::PushShadow(shadow(4.0))),
        shown,
        item(SpecificDisplayItem::PushShadow(shadow(0.0))),
        hidden,
        item(SpecificDisplayItem::PopAllShadows),
        item(rectangle(0.4)),
    ]]);
    let embedder = embedder();
    let built = flattened(&scene, &embedder);
    let pictures = &built.frame_builder.prim_store.pictures;
    // A picture for each shadow, and the root of the scene.
    assert_eq!(pictures.len(), 3);
    assert_eq!(pictures[0].prim_list.len(), 2);
    assert!(!pictures[0].apply_local_clip_rect);
    assert!(matches!(
        pictures[0].requested_raster_space,
        RasterSpace::Local(scale) if scale.equals(F32::one())
    ));
    match pictures[0].requested_composite_mode {
        Some(PictureCompositeMode::Filter(filter)) => assert!(matches!(
            filter.filter,
            FilterOp::ShadowBlur { blur_radius } if blur_radius.equals(f(4.0))
        )),
        _ => panic!("a shadow is a blur"),
    }
    assert!(matches!(pictures[0].options, Some(options) if options.inflate_if_required));
    assert_eq!(pictures[1].prim_list.len(), 1);
    assert!(pictures[1].apply_local_clip_rect);
    assert!(matches!(pictures[1].requested_raster_space, RasterSpace::Screen));
    // The first rectangle, the shadows around what they shadow, the last one.
    let root = root_list(&built);
    assert_eq!(root.len(), 5);
    assert_eq!(picture_of(&root[1]), 0);
    assert!(matches!(root[2].kind, PrimitiveInstanceKind::Primitive { .. }));
    assert_eq!(picture_of(&root[3]), 1);
    assert!(matches!(root[4].kind, PrimitiveInstanceKind::Primitive { .. }));
    // Shadows cannot be hit, nor what is not visible.
    assert_eq!(built.frame_builder.hit_testing_runs.len(), 1);
    assert_eq!(built.frame_builder.hit_testing_runs[0].items.len(), 1);
    assert_eq!(built.frame_builder.hit_testing_runs[0].items[0].tag.value, 2);
    // What a shadow shows is moved by its offset.
    match &built.intern_log.requests[1] {
        InternRequest::Primitive { prim: Primitive::Rectangle(rectangle), info, .. } => {
            assert!(format!("{:?}", rectangle).contains("shadow: Some(Shadow"));
            let moved = LayoutRect::Translated(
                Box::new(LayoutRect::Translated(
                    Box::new(LayoutRect::Value(rect(11.0, 21.0, 31.0, 41.0))),
                    Box::new(LayoutVector2D::Zero),
                )),
                Box::new(LayoutVector2D::Value(VectorF { x: f(2.0), y: f(3.0) })),
            );
            assert_eq!(format!("{:?}", info.clip_rect), format!("{:?}", moved));
        }
        _ => panic!("a shadowed primitive is interned"),
    }
}

#[test]
fn a_shadow_of_nothing_is_not_drawn() {
    let scene = scene(vec![vec![
        item(SpecificDisplayItem::PushShadow(shadow(4.0))),
        item(SpecificDisplayItem::PopAllShadows),
    ]]);
    let embedder = embedder();
    let built = flattened(&scene, &embedder);
    assert_eq!(built.frame_builder.prim_store.pictures.len(), 1);
    assert_eq!(root_list(&built).len(), 0);
}

#[test]
fn shadows_must_be_balanced() {
    assert_eq!(
        error_of(vec![item(SpecificDisplayItem::PopAllShadows)]),
        FlattenError::NoPendingShadows
    );
    assert_eq!(
        error_of(vec![item(SpecificDisplayItem::PushShadow(shadow(1.0)))]),
        FlattenError::UnpoppedShadows
    );
    assert_eq!(
        error_of(vec![
            push(plain_context(), vec![FilterOp::Given(1)]),
            item(SpecificDisplayItem::PushShadow(shadow(1.0))),
            pop(),
        ]),
        FlattenError::UnpoppedShadows
    );
}

#[test]
fn a_redundant_context_may_end_under_a_shadow() {
    let scene = scene(vec![vec![
        push(plain_context(), Vec::new()),
        item(SpecificDisplayItem::PushShadow(shadow(1.0))),
        item(rectangle(0.1)),
        pop(),
        item(SpecificDisplayItem::PopAllShadows),
    ]]);
    let embedder = embedder();
    let built = flattened(&scene, &embedder);
    assert_eq!(root_list(&built).len(), 2);
}

fn line(orientation: LineOrientation, style: LineStyle) -> SpecificDisplayItem {
    SpecificDisplayItem::Line {
        wavy_line_thickness: f(1.5),
        orientation,
        color: color(1.0),
        style,
        sizes: if matches!(style, LineStyle::Solid) { None } else { Some((f(4.0), f(2.0))) },
        draws: true,
    }
}

#[test]
fn dotted_lines_are_clipped_to_whole_dots() {
    let scene = scene(vec![vec![
        item(line(LineOrientation::Horizontal, LineStyle::Dotted)),
        item(line(LineOrientation::Vertical, LineStyle::Dotted)),
        item(line(LineOrientation::Vertical, LineStyle::Dashed)),
        item(line(LineOrientation::Horizontal, LineStyle::Solid)),
    ]]);
    let embedder = embedder();
    let built = flattened(&scene, &embedder);
    let moved = |r: RectF| {
        LayoutRect::Translated(
            Box::new(LayoutRect::Value(r)),
            Box::new(LayoutVector2D::Zero),
        )
    };
    let bounds = || Box::new(LayoutSize::OfRect(Box::new(moved(rect(10.0, 20.0, 30.0, 40.0)))));
    let dots = |length: Scalar| {
        Scalar::Product(
            Box::new(Scalar::Value(f(4.0))),
            Box::new(Scalar::Floor(Box::new(Scalar::Quotient(
                Box::new(length),
                Box::new(Scalar::Value(f(4.0))),
            )))),
        )
    };
    let clipped = |clip_size: LayoutSize| {
        LayoutRect::IntersectionOrZero(
            Box::new(LayoutRect::New(
                Box::new(LayoutPoint::OriginOf(Box::new(moved(rect(10.0, 20.0, 30.0, 40.0))))),
                Box::new(clip_size),
            )),
            Box::new(moved(rect(11.0, 21.0, 31.0, 41.0))),
        )
    };
    let expected = [
        clipped(LayoutSize::New(
            Box::new(dots(Scalar::WidthOf(bounds()))),
            Box::new(Scalar::HeightOf(bounds())),
        )),
        clipped(LayoutSize::New(
            Box::new(Scalar::WidthOf(bounds())),
            Box::new(dots(Scalar::HeightOf(bounds()))),
        )),
        moved(rect(11.0, 21.0, 31.0, 41.0)),
        moved(rect(11.0, 21.0, 31.0, 41.0)),
    ];
    for (drawn, expected) in root_list(&built).iter().zip(expected.iter()) {
        assert_eq!(format!("{:?}", drawn.local_clip_rect), format!("{:?}", expected));
    }
    let sizes: Vec<Option<(u32, u32)>> = primitives(&built)
        .iter()
        .map(|prim| match prim {
            Primitive::LineDecoration(line) => line
                .cache_key
                .map(|key| (key.size.width.bits, key.size.height.bits)),
            _ => panic!("a line is a line decoration"),
        })
        .collect();
    let (four, two) = (4.0f32.to_bits(), 2.0f32.to_bits());
    assert_eq!(sizes, vec![Some((four, two)), Some((two, four)), Some((two, four)), None]);
}

fn stops(alphas: &[f32]) -> Vec<GradientStop> {
    alphas.iter().map(|a| GradientStop { offset: f(0.0), color: color(*a) }).collect()
}

fn gradient(start: PointF, end: PointF, alphas: &[f32]) -> SpecificDisplayItem {
    SpecificDisplayItem::Gradient {
        gradient: Gradient { start_point: start, end_point: end, extend_mode: ExtendMode::Repeat },
        stops: stops(alphas),
        tile_size: size(5.0, 6.0),
        tile_spacing: size(0.0, 1.0),
        draws: true,
    }
}

#[test]
fn gradients_have_one_orientation() {
    let scene = scene(vec![vec![
        item(gradient(point(1.0, 2.0), point(3.0, 0.0), &[0.5, 0.0])),
        item(gradient(point(3.0, 0.0), point(1.0, 2.0), &[0.0, 0.5])),
        item(gradient(point(1.0, 2.0), point(1.0, 0.0), &[0.5])),
        item(gradient(point(1.0, 0.0), point(1.0, 2.0), &[0.5])),
        item(gradient(point(1.0, 1.0), point(1.0, 1.0), &[0.5])),
    ]]);
    let embedder = embedder();
    let built = flattened(&scene, &embedder);
    let found: Vec<(f32, f32, f32, f32, bool)> = primitives(&built)
        .iter()
        .map(|prim| match prim {
            Primitive::LinearGradient(gradient) => (
                f32::from_bits(gradient.start_point.x.bits),
                f32::from_bits(gradient.start_point.y.bits),
                f32::from_bits(gradient.end_point.x.bits),
                f32::from_bits(gradient.end_point.y.bits),
                gradient.reverse_stops,
            ),
            _ => panic!("a gradient along a line"),
        })
        .collect();
    assert_eq!(
        found,
        vec![
            (1.0, 2.0, 3.0, 0.0, false),
            (1.0, 2.0, 3.0, 0.0, true),
            (1.0, 0.0, 1.0, 2.0, true),
            (1.0, 0.0, 1.0, 2.0, false),
            (1.0, 1.0, 1.0, 1.0, false),
        ]
    );
}

#[test]
fn transparent_gradients_add_nothing() {
    let (a, b) = (point(1.0, 2.0), point(3.0, 0.0));
    let scene = scene(vec![vec![
        item(gradient(a, b, &[0.0, 0.0])),
        item(gradient(a, b, &[])),
        item(gradient(a, b, &[f32::NAN, -1.0])),
    ]]);
    let embedder = embedder();
    let built = flattened(&scene, &embedder);
    assert_eq!(root_list(&built).len(), 0);
}

fn radial() -> RadialGradientSpec {
    RadialGradientSpec {
        center: point(7.0, 8.0),
        radius: size(10.0, 20.0),
        start_offset: f(0.25),
        end_offset: f(0.75),
        extend_mode: ExtendMode::Clamp,
    }
}

#[test]
fn radial_gradients_are_scaled() {
    let scene = scene(vec![vec![item(SpecificDisplayItem::RadialGradient {
        gradient: radial(),
        stops: stops(&[0.0]),
        tile_size: size(5.0, 6.0),
        tile_spacing: size(0.0, 1.0),
        draws: true,
    })]]);
    let embedder = embedder();
    let built = flattened(&scene, &embedder);
    match primitives(&built)[0] {
        Primitive::RadialGradient(gradient) => {
            assert_eq!(
                format!("{:?}", gradient.params.start_radius),
                format!(
                    "{:?}",
                    Scalar::Product(
                        Box::new(Scalar::Value(f(0.25))),
                        Box::new(Scalar::Value(f(10.0)))
                    )
                )
            );
            assert_eq!(
                format!("{:?}", gradient.params.end_radius),
                format!(
                    "{:?}",
                    Scalar::Product(
                        Box::new(Scalar::Value(f(0.75))),
                        Box::new(Scalar::Value(f(10.0)))
                    )
                )
            );
            assert_eq!(
                format!("{:?}", gradient.params.ratio_xy),
                format!(
                    "{:?}",
                    Scalar::Quotient(
                        Box::new(Scalar::Value(f(10.0))),
                        Box::new(Scalar::Value(f(20.0)))
                    )
                )
            );
            assert_eq!(gradient.center.x.bits, 7.0f32.to_bits());
            assert_eq!(gradient.stops.len(), 1);
            assert!(gradient.nine_patch.is_none());
        }
        _ => panic!("a gradient around a point"),
    }
}

fn border(source: NinePatchBorderSource, alphas: &[f32]) -> SpecificDisplayItem {
    let ones = SideOffsetsF { top: f(1.0), right: f(1.0), bottom: f(1.0), left: f(1.0) };
    SpecificDisplayItem::Border {
        border: BorderDisplayItem {
            widths: SideOffsetsF { top: f(9.0), ..ones },
            details: BorderDetails::NinePatch(NinePatchBorder {
                source,
                width: 50,
                height: 60,
                slice: SideOffsetsI { top: 1, right: 2, bottom: 3, left: 4 },
                fill: true,
                repeat_horizontal: RepeatMode::Round,
                repeat_vertical: RepeatMode::Space,
                outset: ones,
            }),
        },
        stops: stops(alphas),
        draws: true,
    }
}

#[test]
fn borders_cut_into_nine_parts() {
    let line = Gradient {
        start_point: point(0.0, 0.0),
        end_point: point(1.0, 0.0),
        extend_mode: ExtendMode::Clamp,
    };
    let scene = scene(vec![vec![
        item(border(NinePatchBorderSource::Image(ImageKey { namespace: 1, index: 3 }), &[])),
        item(border(NinePatchBorderSource::Gradient(line), &[1.0])),
        item(border(NinePatchBorderSource::Gradient(line), &[0.0])),
        item(border(NinePatchBorderSource::RadialGradient(radial()), &[0.0])),
    ]]);
    let embedder = embedder();
    let built = flattened(&scene, &embedder);
    let found = primitives(&built);
    assert_eq!(found.len(), 3);
    match found[0] {
        Primitive::ImageBorder(border) => {
            assert_eq!(border.request.key, ImageKey { namespace: 1, index: 3 });
            assert_eq!(border.nine_patch.width, 50);
            assert_eq!(border.nine_patch.slice.left, 4);
            assert_eq!(border.nine_patch.widths.top.bits, 9.0f32.to_bits());
            assert!(matches!(border.nine_patch.repeat_vertical, RepeatMode::Space));
        }
        _ => panic!("a border cut from an image"),
    }
    let stretch = LayoutSize::New(Box::new(Scalar::OfInt(60)), Box::new(Scalar::OfInt(50)));
    match found[1] {
        Primitive::LinearGradient(gradient) => {
            assert_eq!(format!("{:?}", gradient.stretch_size), format!("{:?}", stretch));
            assert!(matches!(gradient.nine_patch, Some(patch) if patch.height == 60));
        }
        _ => panic!("a border cut from a gradient"),
    }
    match found[2] {
        Primitive::RadialGradient(gradient) => {
            assert_eq!(format!("{:?}", gradient.stretch_size), format!("{:?}", stretch));
            assert!(matches!(gradient.nine_patch, Some(patch) if patch.fill));
        }
        _ => panic!("a border cut from a gradient around a point"),
    }
}

#[test]
fn some_items_are_left_to_the_embedder() {
    let ones = SideOffsetsF { top: f(1.0), right: f(1.0), bottom: f(1.0), left: f(1.0) };
    let radius = size(2.0, 2.0);
    let scene = scene(vec![vec![
        item(SpecificDisplayItem::Border {
            border: BorderDisplayItem {
                widths: ones,
                details: BorderDetails::Normal(NormalBorder { number: 17 }),
            },
            stops: Vec::new(),
            draws: true,
        }),
        item(SpecificDisplayItem::BoxShadow(BoxShadowDisplayItem {
            box_bounds: rect(50.0, 51.0, 52.0, 53.0),
            offset: VectorF { x: f(1.0), y: f(1.0) },
            color: color(1.0),
            blur_radius: f(3.0),
            spread_radius: f(4.0),
            border_radius: BorderRadius {
                top_left: radius,
                top_right: radius,
                bottom_left: radius,
                bottom_right: radius,
            },
            clip_mode: BoxShadowClipMode::Inset,
        })),
    ]]);
    let embedder = embedder();
    let (built, requests) = match flatten(&scene, &embedder) {
        Ok(done) => done,
        Err(error) => panic!("the display list is sound: {:?}", error),
    };
    assert_eq!(root_list(&built).len(), 0);
    assert_eq!(requests.len(), 2);
    assert!(requests[0].contains("NormalBorder { number: 17 }"));
    let bounds = LayoutRect::Translated(
        Box::new(LayoutRect::Value(rect(50.0, 51.0, 52.0, 53.0))),
        Box::new(LayoutVector2D::Zero),
    );
    assert!(requests[1].contains(&format!("rect: {:?}, clip_rect", bounds)));
    assert!(requests[1].contains("clip_mode: Inset"));
}

fn font(size: i32) -> BaseFontInstance {
    BaseFontInstance {
        font_key: FontKey { namespace: 1, index: 1 },
        size,
        bg_color: ColorU { r: 1, g: 2, b: 3, a: 4 },
        render_mode: FontRenderMode::Alpha,
        flags: 0b0101,
        synthetic_italics: 14,
        platform_options: Some(8),
        variations: Vec::new(),
    }
}

fn text(index: u32, glyph_options: Option<GlyphOptions>) -> SpecificDisplayItem {
    SpecificDisplayItem::Text {
        font_key: FontInstanceKey { namespace: 1, index },
        color: color(1.0),
        glyphs: vec![
            GlyphInstance { index: 5, point: point(12.0, 34.0) },
            GlyphInstance { index: 6, point: point(15.0, 34.0) },
        ],
        glyph_options,
        draws: true,
    }
}

#[test]
fn text_runs() {
    let options = GlyphOptions { render_mode: FontRenderMode::Mono, flags: 0b0011 };
    let scene = scene(vec![vec![item(text(1, Some(options))), item(text(1, None))]]);
    let mut embedder = embedder();
    embedder.fonts.insert(FontInstanceKey { namespace: 1, index: 1 }.key(), font(960));
    let built = flattened(&scene, &embedder);
    let found = primitives(&built);
    match found[0] {
        Primitive::TextRun(run) => {
            assert_eq!(run.font.flags, 0b0111);
            assert_eq!(run.font.size, 960);
            assert!(matches!(run.font.render_mode.mode, FontRenderMode::Subpixel));
            assert!(matches!(run.font.render_mode.font_limit, FontRenderMode::Alpha));
            assert!(matches!(run.font.render_mode.glyph_limit, Some(FontRenderMode::Mono)));
            let offset = LayoutVector2D::Difference(
                Box::new(LayoutVector2D::OfPoint(Box::new(LayoutPoint::OriginOf(Box::new(
                    LayoutRect::Translated(
                        Box::new(LayoutRect::Value(rect(10.0, 20.0, 30.0, 40.0))),
                        Box::new(LayoutVector2D::Zero),
                    ),
                ))))),
                Box::new(LayoutVector2D::Zero),
            );
            let placed = run.placed_glyphs();
            assert_eq!(placed.len(), 2);
            assert_eq!(placed[1].index, 6);
            assert_eq!(
                format!("{:?}", placed[1].point),
                format!(
                    "{:?}",
                    LayoutPoint::Minus(
                        Box::new(LayoutPoint::Value(point(15.0, 34.0))),
                        Box::new(offset)
                    )
                )
            );
        }
        _ => panic!("a text is a text run"),
    }
    match found[1] {
        Primitive::TextRun(run) => {
            assert_eq!(run.font.flags, 0b0101);
            assert!(run.font.render_mode.glyph_limit.is_none());
        }
        _ => panic!("a text is a text run"),
    }
}

#[test]
fn text_without_a_usable_font_is_left_out() {
    let scene =
        scene(vec![vec![item(text(1, None)), item(text(2, None)), item(text(3, None))]]);
    let mut embedder = embedder();
    embedder.fonts.insert(FontInstanceKey { namespace: 1, index: 2 }.key(), font(0));
    embedder.fonts.insert(FontInstanceKey { namespace: 1, index: 3 }.key(), font(-5));
    let built = flattened(&scene, &embedder);
    assert_eq!(root_list(&built).len(), 0);
    assert_eq!(primitives(&built).len(), 0);
}

#[test]
fn marks_draw_nothing() {
    let scene = scene(vec![vec![
        item(SpecificDisplayItem::SetGradientStops),
        item(SpecificDisplayItem::PushCacheMarker),
        item(SpecificDisplayItem::PopCacheMarker),
        item(rectangle(0.1)),
    ]]);
    let embedder = embedder();
    assert_eq!(root_list(&flattened(&scene, &embedder)).len(), 1);
}

#[test]
fn a_stray_pop_ends_the_list() {
    let scene = scene(vec![vec![item(rectangle(0.1)), pop(), item(rectangle(0.2))]]);
    let embedder = embedder();
    assert_eq!(root_list(&flattened(&scene, &embedder)).len(), 1);
}

#[test]
fn a_closing_context_waits_for_its_answer() {
    let scene = scene(vec![vec![
        push(plain_context(), Vec::new()),
        item(rectangle(0.1)),
        pop(),
    ]]);
    let embedder = embedder();
    let (mut flattener, mut traversal) = DisplayListFlattener::begin(
        &scene,
        ClipScrollTree::new(),
        &embedder.fonts,
        &embedder.outputs,
        &config(false),
        InternLog::new(),
    )
    .unwrap_or_else(|_| panic!("there is a root pipeline"));
    assert!(matches!(flattener.flatten_items(&mut traversal), Ok(FlattenStep::Continue)));
    assert!(matches!(flattener.flatten_items(&mut traversal), Ok(FlattenStep::Continue)));
    for _ in 0..2 {
        assert!(matches!(
            flattener.flatten_items(&mut traversal),
            Ok(FlattenStep::CloseStackingContext {
                spatial_node_index: SpatialNodeIndex { index: 1 }
            })
        ));
    }
    assert!(matches!(
        flattener.end_stacking_context(&mut traversal, true),
        Ok(FlattenStep::Continue)
    ));
    assert_eq!(traversal.frames.len(), 1);
    assert_eq!(traversal.frames[0].cursor, 3);
    for _ in 0..2 {
        assert!(matches!(flattener.flatten_items(&mut traversal), Ok(FlattenStep::Finished)));
        assert_eq!(traversal.frames.len(), 0);
    }
}

#[test]
fn stores_only_grow_and_pictures_refer_back() {
    let mut context = plain_context();
    context.transform_style = TransformStyle::Preserve3D;
    let mut blended = plain_context();
    blended.mix_blend_mode = Some(MixBlendMode { number: 1 });
    let mut list = cached_list(vec![1, 9, 1]);
    list.extend(vec![
        item(SpecificDisplayItem::PushShadow(shadow(2.0))),
        item(rectangle(0.1)),
        item(SpecificDisplayItem::PopAllShadows),
        push(context, Vec::new()),
        item(rectangle(0.2)),
        push(plain_context(), vec![FilterOp::Given(3)]),
        item(rectangle(0.3)),
        pop(),
        pop(),
        push(blended, vec![FilterOp::Given(4), FilterOp::Given(5)]),
        item(rectangle(0.4)),
        pop(),
    ]);
    let scene = scene(vec![list]);
    let embedder = embedder();
    let (mut flattener, mut traversal) = DisplayListFlattener::begin(
        &scene,
        ClipScrollTree::new(),
        &embedder.fonts,
        &embedder.outputs,
        &config(true),
        InternLog::new(),
    )
    .unwrap_or_else(|_| panic!("there is a root pipeline"));
    let mut stored: Vec<String> = Vec::new();
    loop {
        let step = flattener
            .flatten_items(&mut traversal)
            .unwrap_or_else(|error| panic!("the display list is sound: {:?}", error));
        if let FlattenStep::CloseStackingContext { .. } = step {
            let ended = flattener.end_stacking_context(&mut traversal, false);
            assert!(ended.is_ok());
        }
        let now: Vec<String> = flattener
            .prim_store
            .pictures
            .iter()
            .map(|picture| format!("{:?}", picture))
            .collect();
        assert_eq!(&now[..stored.len()], &stored[..]);
        stored = now;
        if let FlattenStep::Finished = step {
            break;
        }
    }
    let pictures = &flattener.prim_store.pictures;
    assert_eq!(flattener.root_pic_index.index, pictures.len() - 1);
    for (place, picture) in pictures.iter().enumerate() {
        for instance in &picture.prim_list {
            match instance.kind {
                PrimitiveInstanceKind::Picture { data_handle, pic_index } => {
                    assert!(pic_index.index < place);
                    assert!(data_handle.index < flattener.intern_log.requests.len());
                }
                PrimitiveInstanceKind::Primitive { data_handle, record } => {
                    assert!(record < flattener.prim_store.records.len());
                    assert!(matches!(
                        flattener.intern_log.requests[data_handle.index],
                        InternRequest::Primitive { .. }
                    ));
                    assert_eq!(
                        flattener.prim_store.records[record].data_handle,
                        data_handle
                    );
                }
            }
        }
    }
}

fn reference_frame(id: u64) -> DisplayItem {
    item(SpecificDisplayItem::PushReferenceFrame(ReferenceFrame {
        id: spatial(id),
        kind: ReferenceFrameKind::Transform,
        transform_style: TransformStyle::Flat,
        transform: SourceTransform::Identity,
    }))
}

#[test]
fn a_frame_from_open_to_close() {
    let mut inner = item(rectangle(0.2));
    inner.space_and_clip = SpaceAndClipInfo {
        spatial_id: SpatialId { id: 1, pipeline_id: pipeline(2) },
        clip_id: ClipId::root(pipeline(2)),
    };
    let scene = scene(vec![
        vec![
            item(rectangle(0.1)),
            push(plain_context(), Vec::new()),
            reference_frame(9),
            item_at(9, rectangle(0.1)),
            push(plain_context(), Vec::new()),
            pop(),
            item(SpecificDisplayItem::PopReferenceFrame),
            item(SpecificDisplayItem::Iframe { pipeline_id: pipeline(2) }),
            item(rectangle(0.3)),
            pop(),
            item(rectangle(0.4)),
        ],
        vec![inner],
    ]);
    let embedder = embedder();
    let (mut flattener, mut traversal) = DisplayListFlattener::begin(
        &scene,
        ClipScrollTree::new(),
        &embedder.fonts,
        &embedder.outputs,
        &config(false),
        InternLog::new(),
    )
    .unwrap_or_else(|_| panic!("there is a root pipeline"));
    // The items of the two lists that are passed, by the pipeline and the place,
    // and the heights of the stacks after each turn.
    let mut passed: Vec<(u32, usize)> = Vec::new();
    let mut heights: Vec<(usize, usize, usize)> = Vec::new();
    let mut closed_at: Vec<usize> = Vec::new();
    loop {
        let before = traversal.frames.len();
        let cursor = traversal.frames[before - 1].cursor;
        let list = traversal.frames[before - 1].pipeline_id.index;
        let step = flattener
            .flatten_items(&mut traversal)
            .unwrap_or_else(|error| panic!("the display list is sound: {:?}", error));
        if let FlattenStep::CloseStackingContext { .. } = step {
            let ended = flattener.end_stacking_context(&mut traversal, true);
            assert!(ended.is_ok());
        }
        let length = if list == 1 { 11 } else { 1 };
        if cursor < length {
            passed.push((list, cursor));
        }
        if traversal.frames.len() < before && !traversal.frames.is_empty() {
            closed_at.push(traversal.frames[traversal.frames.len() - 1].cursor);
        }
        heights.push((
            traversal.frames.len(),
            flattener.sc_stack.len(),
            flattener.pipeline_clip_chain_stack.len(),
        ));
        if let FlattenStep::Finished = step {
            break;
        }
    }
    // The end of the empty stacking context is passed with its begin.
    let expected: Vec<(u32, usize)> = vec![
        (1, 0),
        (1, 1),
        (1, 2),
        (1, 3),
        (1, 4),
        (1, 6),
        (1, 7),
        (2, 0),
        (1, 8),
        (1, 9),
        (1, 10),
    ];
    assert_eq!(passed, expected);
    // After the reference frame, the iframe and the stacking context.
    assert_eq!(closed_at, vec![7, 8, 10]);
    let expected_heights: Vec<(usize, usize, usize)> = vec![
        (1, 1, 1),
        (2, 2, 1),
        (3, 2, 1),
        (3, 2, 1),
        (3, 2, 1),
        (2, 2, 1),
        (3, 2, 2),
        (3, 2, 2),
        (2, 2, 1),
        (2, 2, 1),
        (1, 1, 1),
        (1, 1, 1),
        (0, 0, 1),
    ];
    assert_eq!(heights, expected_heights);
}

#[test]
fn the_embedder_adds_primitives_between_steps() {
    let ones = SideOffsetsF { top: f(1.0), right: f(1.0), bottom: f(1.0), left: f(1.0) };
    let normal = || SpecificDisplayItem::Border {
        border: BorderDisplayItem {
            widths: ones,
            details: BorderDetails::Normal(NormalBorder { number: 17 }),
        },
        stops: Vec::new(),
        draws: true,
    };
    let scene = scene(vec![vec![
        item(normal()),
        item(SpecificDisplayItem::PushShadow(shadow(1.0))),
        item(normal()),
        item(SpecificDisplayItem::PopAllShadows),
    ]]);
    let embedder = embedder();
    let (mut flattener, mut traversal) = DisplayListFlattener::begin(
        &scene,
        ClipScrollTree::new(),
        &embedder.fonts,
        &embedder.outputs,
        &config(false),
        InternLog::new(),
    )
    .unwrap_or_else(|_| panic!("there is a root pipeline"));
    loop {
        match flattener.flatten_items(&mut traversal) {
            Ok(FlattenStep::NormalBorder(request)) => {
                assert!(
                    request.clip_and_scroll.spatial_node_index.index
                        < flattener.clip_scroll_tree.spatial_nodes.len()
                );
                flattener.add_primitive(
                    request.clip_and_scroll,
                    &request.info,
                    Vec::new(),
                    display_list_flattener::primitives::NormalBorderPrim {
                        border: request.border,
                        widths: request.widths,
                        draws: true,
                        shadow: None,
                    },
                    &request.reference_frame_relative_offset,
                );
            }
            Ok(FlattenStep::Finished) => break,
            Ok(_) => {}
            Err(error) => panic!("the display list is sound: {:?}", error),
        }
    }
    // One border, the shadow of the other, and the other.
    let root = &flattener.prim_store.pictures[flattener.root_pic_index.index].prim_list;
    assert_eq!(root.len(), 3);
    assert_eq!(picture_of(&root[1]), 0);
    assert_eq!(flattener.prim_store.pictures[0].prim_list.len(), 1);
}

#[test]
fn pictures_of_filters_are_collapsed_when_their_context_ends() {
    let mut blended = plain_context();
    blended.mix_blend_mode = Some(MixBlendMode { number: 1 });
    let scene = scene(vec![vec![
        item(SpecificDisplayItem::PushShadow(shadow(2.0))),
        item(rectangle(0.1)),
        item(SpecificDisplayItem::PopAllShadows),
        push(plain_context(), Vec::new()),
        item(rectangle(0.2)),
        pop(),
        push(blended, Vec::new()),
        item(rectangle(0.3)),
        pop(),
        push(blended, vec![FilterOp::Given(4), FilterOp::Given(5)]),
        item(rectangle(0.4)),
        pop(),
    ]]);
    let embedder = embedder();
    let (mut flattener, mut traversal) = DisplayListFlattener::begin(
        &scene,
        ClipScrollTree::new(),
        &embedder.fonts,
        &embedder.outputs,
        &config(false),
        InternLog::new(),
    )
    .unwrap_or_else(|_| panic!("there is a root pipeline"));
    let mut asked: Vec<Option<usize>> = Vec::new();
    loop {
        let before = flattener.prim_store.pictures.len();
        let step = flattener
            .flatten_items(&mut traversal)
            .unwrap_or_else(|error| panic!("the display list is sound: {:?}", error));
        for picture in &flattener.prim_store.pictures[before..] {
            assert!(!picture.optimize);
        }
        if let FlattenStep::CloseStackingContext { .. } = step {
            let first = flattener.prim_store.pictures.len();
            match flattener.end_stacking_context(&mut traversal, true) {
                Ok(FlattenStep::Continue) => asked.push(None),
                Ok(FlattenStep::OptimizePictures { from }) => {
                    assert_eq!(from.index, first);
                    asked.push(Some(from.index));
                }
                _ => panic!("no shadow is active"),
            }
            for index in first..flattener.prim_store.pictures.len() {
                let picture = &flattener.prim_store.pictures[index];
                let filtered = matches!(
                    picture.requested_composite_mode,
                    Some(PictureCompositeMode::Filter(_))
                );
                assert_eq!(picture.optimize, filtered);
                if filtered {
                    let others = |pictures: &Vec<_>| -> Vec<String> {
                        (0..pictures.len())
                            .filter(|other| *other != index)
                            .map(|other| format!("{:?}", pictures[other]))
                            .collect()
                    };
                    let kept = others(&flattener.prim_store.pictures);
                    let drawn = format!("{:?}", picture.prim_list);
                    flattener.picture_optimized(PictureIndex { index }, None);
                    let picture = &flattener.prim_store.pictures[index];
                    assert!(picture.requested_composite_mode.is_none());
                    assert!(!picture.optimize);
                    assert_eq!(format!("{:?}", picture.prim_list), drawn);
                    assert_eq!(others(&flattener.prim_store.pictures), kept);
                }
            }
        }
        if let FlattenStep::Finished = step {
            break;
        }
    }
    // The picture of the shadow, then those of the context that only blends.
    assert_eq!(asked, vec![None, None, Some(3)]);
    assert_eq!(flattener.prim_store.pictures.len(), 8);
    assert!(flattener.prim_store.pictures.iter().all(|picture| !picture.optimize));
}

#[test]
fn the_root_ids_of_an_iframe_stay_mapped() {
    let mut inner = item(rectangle(0.2));
    inner.space_and_clip = SpaceAndClipInfo {
        spatial_id: SpatialId { id: 1, pipeline_id: pipeline(2) },
        clip_id: ClipId::root(pipeline(2)),
    };
    let scene = scene(vec![
        vec![
            item(SpecificDisplayItem::Iframe { pipeline_id: pipeline(2) }),
            item(rectangle(0.3)),
        ],
        vec![inner],
    ]);
    let embedder = embedder();
    let (mut flattener, mut traversal) = DisplayListFlattener::begin(
        &scene,
        ClipScrollTree::new(),
        &embedder.fonts,
        &embedder.outputs,
        &config(false),
        InternLog::new(),
    )
    .unwrap_or_else(|_| panic!("there is a root pipeline"));
    let root_clip = ClipId::root(pipeline(2));
    let reference_frame = SpatialId::root_reference_frame(pipeline(2));
    let scroll_node = SpatialId::root_scroll_node(pipeline(2));
    assert!(flattener.id_to_index_mapper.find_clip_node(root_clip).is_none());
    assert!(flattener.id_to_index_mapper.find_spatial_node(reference_frame).is_none());
    assert!(flattener.id_to_index_mapper.find_spatial_node(scroll_node).is_none());
    let mut depths = Vec::new();
    loop {
        let step = flattener
            .flatten_items(&mut traversal)
            .unwrap_or_else(|error| panic!("the display list is sound: {:?}", error));
        depths.push(traversal.frames.len());
        match flattener.id_to_index_mapper.find_clip_node(root_clip) {
            Some(node) => assert_eq!(node.id, ClipChainId::Node(0)),
            None => panic!("the root clip of the iframe is mapped"),
        }
        assert_eq!(
            flattener.id_to_index_mapper.find_spatial_node(reference_frame),
            Some(SpatialNodeIndex { index: 2 })
        );
        assert_eq!(
            flattener.id_to_index_mapper.find_spatial_node(scroll_node),
            Some(SpatialNodeIndex { index: 3 })
        );
        if let FlattenStep::Finished = step {
            break;
        }
    }
    assert_eq!(depths, vec![2, 2, 1, 1, 0]);
}
