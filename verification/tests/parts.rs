use std::collections::{HashMap, HashSet};

use display_list_flattener::clip_store::{ClipItemKey, ClipStore};
use display_list_flattener::display_list::{FontInstanceKey, Scene, ScenePipeline};
use display_list_flattener::flattener::DisplayListFlattener;
use display_list_flattener::hit_test::{push_hit_item, HeldRun, HitTestingItem};
use display_list_flattener::ids::{
    root_spatial_node_index, scoped_key, ApiClipChainId, ClipChainId, ClipId, ImageKey,
    PictureIndex, PipelineId, RequestIndex, ScrollNodeAndClipChain, SpatialId, SpatialNodeIndex,
};
use display_list_flattener::layout::{
    ColorF, F32, LayoutPoint, LayoutRect, LayoutSize, LayoutVector2D, PointF, RectF, SizeF,
    VectorF,
};
use display_list_flattener::mapper::NodeIdToIndexMapper;
use display_list_flattener::picture::{
    BlitReason, Picture3DContext, PictureCompositeKey, PrimitiveInstance, PrimitiveInstanceKind,
    PrimitiveStore, RasterSpace,
};
use display_list_flattener::primitives::{
    AlphaType, AsInstanceKind, ColorDepth, CreateShadow, FontRenderMode, Image, ImageRendering,
    InternLog, IsVisible, ItemTag, LayoutPrimitiveInfo, LineDecoration, NormalBorder,
    NormalBorderPrim, Primitive, PrimitiveKeyKind, Shadow, SideOffsetsF, TexelRect, YuvColorSpace,
    YuvData, YuvFormat,
};
use display_list_flattener::shadows::{PendingPrimitive, ShadowItem};
use display_list_flattener::spatial_tree::{
    ClipScrollTree, ReferenceFrameKind, ScrollFrameKind, ScrollSensitivity, SourceTransform,
    TransformStyle,
};
use display_list_flattener::stacking_context::{
    create_prim_instance, CompositeOps, FlattenedStackingContext, HeldContext,
};
use display_list_flattener::state::FrameBuilderConfig;

fn f(value: f32) -> F32 {
    F32 { bits: value.to_bits() }
}

fn rect(x: f32, y: f32, width: f32, height: f32) -> RectF {
    RectF {
        origin: PointF { x: f(x), y: f(y) },
        size: SizeF { width: f(width), height: f(height) },
    }
}

fn color(a: f32) -> ColorF {
    ColorF { r: f(1.0), g: f(0.5), b: f(0.0), a: f(a) }
}

fn pipeline(index: u32) -> PipelineId {
    PipelineId { namespace: 3, index }
}

fn place(node: usize, clip: ClipChainId) -> ScrollNodeAndClipChain {
    ScrollNodeAndClipChain {
        spatial_node_index: SpatialNodeIndex { index: node },
        clip_chain_id: clip,
    }
}

fn info(tag: Option<ItemTag>) -> LayoutPrimitiveInfo {
    LayoutPrimitiveInfo {
        rect: LayoutRect::Value(rect(1.0, 2.0, 3.0, 4.0)),
        clip_rect: LayoutRect::Value(rect(5.0, 6.0, 7.0, 8.0)),
        is_backface_visible: true,
        tag,
    }
}

fn config() -> FrameBuilderConfig {
    FrameBuilderConfig {
        default_font_render_mode: FontRenderMode::Subpixel,
        enable_picture_caching: true,
    }
}

fn empty_scene() -> Scene {
    let mut pipelines = HashMap::new();
    pipelines.insert(
        pipeline(1).key(),
        ScenePipeline {
            pipeline_id: pipeline(1),
            viewport_size: SizeF { width: f(800.0), height: f(600.0) },
            content_size: SizeF { width: f(800.0), height: f(2000.0) },
            background_color: None,
            display_list: Vec::new(),
        },
    );
    Scene {
        root_pipeline_id: Some(pipeline(1)),
        pipelines,
        pipeline_epochs: HashMap::new(),
    }
}

fn begin<'a>(
    scene: &'a Scene,
    fonts: &'a HashMap<u64, display_list_flattener::primitives::BaseFontInstance>,
    outputs: &'a HashSet<u64>,
) -> DisplayListFlattener<'a> {
    DisplayListFlattener::begin(
        scene,
        ClipScrollTree::new(),
        fonts,
        outputs,
        &config(),
        InternLog::new(),
    )
    .unwrap_or_else(|_| panic!("the scene has a root pipeline"))
    .0
}

fn context(style: TransformStyle) -> HeldContext {
    FlattenedStackingContext {
        primitives: Vec::new(),
        is_backface_visible: true,
        requested_raster_space: RasterSpace::Screen,
        spatial_node_index: root_spatial_node_index(),
        clip_chain_id: ClipChainId::Unclipped,
        frame_output_pipeline_id: None,
        composite_ops: CompositeOps::nothing(),
        blit_reason: BlitReason::empty(),
        pipeline_id: pipeline(1),
        transform_style: style,
        context_3d: Picture3DContext::Out,
        create_tile_cache: false,
    }
}

fn instance(node: usize) -> PrimitiveInstance {
    PrimitiveInstance {
        prim_origin: LayoutPoint::Zero,
        local_clip_rect: LayoutRect::Max,
        kind: PrimitiveInstanceKind::Primitive {
            data_handle: RequestIndex { index: 77 },
            record: 88,
        },
        clip_chain_id: ClipChainId::Unclipped,
        spatial_node_index: SpatialNodeIndex { index: node },
    }
}

#[test]
fn numbers_compare_as_floats() {
    assert!(f(0.0).equals(f(-0.0)));
    assert!(f(1.5).equals(f(1.5)));
    assert!(!f(1.5).equals(f(-1.5)));
    assert!(!f(f32::NAN).equals(f(f32::NAN)));
    assert!(f(1.0).exceeds(f(0.5)));
    assert!(f(-0.5).exceeds(f(-1.0)));
    assert!(f(f32::MIN_POSITIVE).exceeds(F32::zero()));
    assert!(!f(0.0).exceeds(f(-0.0)));
    assert!(f(f32::INFINITY).exceeds(f(f32::MAX)));
    assert!(!f(f32::NAN).exceeds(f(0.0)));
    assert!(!f(0.0).exceeds(f(f32::NAN)));
    assert!(f(f32::NAN).is_nan());
    assert_eq!(F32::one().bits, 1.0f32.to_bits());
}

#[test]
fn keys_of_pipelines_and_objects() {
    assert_eq!(PipelineId { namespace: 2, index: 5 }.key(), 0x2_0000_0005);
    assert_eq!(FontInstanceKey { namespace: 1, index: 9 }.key(), 0x1_0000_0009);
    assert_eq!(
        scoped_key(7, PipelineId { namespace: 2, index: 5 }),
        (0x2_0000_0005u128 << 64) + 7
    );
}

#[test]
fn clip_ids() {
    assert!(ClipId::root(pipeline(1)).is_root());
    assert!(!ClipId::Clip(1, pipeline(1)).is_root());
    assert!(!ClipId::ClipChain(ApiClipChainId { id: 0, pipeline_id: pipeline(1) }).is_root());
    assert!(ClipId::Clip(1, pipeline(1)).is_valid());
    assert!(!ClipId::Clip(u64::MAX, pipeline(1)).is_valid());
    assert_eq!(SpatialId::root_reference_frame(pipeline(1)).id, 0);
    assert_eq!(SpatialId::root_scroll_node(pipeline(1)).id, 1);
}

#[test]
fn mapper_finds_what_was_mapped() {
    let mut mapper = NodeIdToIndexMapper::default();
    let chain = ClipId::ClipChain(ApiClipChainId { id: 4, pipeline_id: pipeline(1) });
    mapper.add_clip_chain(ClipId::Clip(4, pipeline(1)), ClipChainId::Node(7), 2);
    mapper.add_clip_chain(chain, ClipChainId::Node(9), 0);
    mapper.map_spatial_node(
        SpatialId { id: 4, pipeline_id: pipeline(1) },
        SpatialNodeIndex { index: 3 },
    );
    assert_eq!(mapper.get_clip_chain_id(ClipId::Clip(4, pipeline(1))), ClipChainId::Node(7));
    assert_eq!(mapper.get_clip_node(&ClipId::Clip(4, pipeline(1))).count, 2);
    assert_eq!(mapper.get_clip_chain_id(chain), ClipChainId::Node(9));
    assert_eq!(
        mapper.get_spatial_node_index(SpatialId { id: 4, pipeline_id: pipeline(1) }).index,
        3
    );
    // Another pipeline has other ids.
    assert!(mapper.find_clip_node(ClipId::Clip(4, pipeline(2))).is_none());
    assert!(mapper
        .find_spatial_node(SpatialId { id: 4, pipeline_id: pipeline(2) })
        .is_none());
    // The last mapping of an id counts.
    mapper.add_clip_chain(chain, ClipChainId::Unclipped, 0);
    assert_eq!(mapper.get_clip_chain_id(chain), ClipChainId::Unclipped);
    assert_eq!(mapper.get_clip_chain_id(ClipId::Clip(4, pipeline(1))), ClipChainId::Node(7));
}

#[test]
fn hit_items_are_joined_into_runs() {
    let mut runs: Vec<HeldRun> = Vec::new();
    let a = place(1, ClipChainId::Unclipped);
    let b = place(1, ClipChainId::Node(0));
    for (value, where_to) in [(10, a), (11, a), (12, b), (13, a)] {
        let tag = ItemTag { value, flags: 1 };
        push_hit_item(&mut runs, HitTestingItem::new(tag, &info(None)), where_to);
    }
    let values: Vec<Vec<u64>> =
        runs.iter().map(|run| run.items.iter().map(|item| item.tag.value).collect()).collect();
    assert_eq!(values, vec![vec![10, 11], vec![12], vec![13]]);
    assert_eq!(runs[1].clip_and_scroll, b);
    assert!(runs[0].items[0].is_backface_visible);
    assert_eq!(
        format!("{:?}", runs[0].items[0].clip_rect),
        format!("{:?}", LayoutRect::Value(rect(5.0, 6.0, 7.0, 8.0)))
    );
}

#[test]
fn untagged_primitives_cannot_be_hit() {
    let (scene, fonts, outputs) = (empty_scene(), HashMap::new(), HashSet::new());
    let mut flattener = begin(&scene, &fonts, &outputs);
    flattener.add_primitive_to_hit_testing_list(&info(None), place(1, ClipChainId::Unclipped));
    assert_eq!(flattener.hit_testing_runs.len(), 0);
    let tag = Some(ItemTag { value: 5, flags: 0 });
    flattener.add_primitive_to_hit_testing_list(&info(tag), place(1, ClipChainId::Unclipped));
    assert_eq!(flattener.hit_testing_runs.len(), 1);
}

#[test]
fn clip_store_links_nodes() {
    let mut store = ClipStore::new();
    let node = SpatialNodeIndex { index: 2 };
    let first = store.add_clip_chain_node(
        RequestIndex { index: 0 },
        LayoutPoint::Zero,
        node,
        ClipChainId::Unclipped,
    );
    let second =
        store.add_clip_chain_node(RequestIndex { index: 1 }, LayoutPoint::Zero, node, first);
    assert_eq!(first, ClipChainId::Node(0));
    assert_eq!(second, ClipChainId::Node(1));
    assert_eq!(store.get_clip_chain(1).parent_clip_chain_id, first);
    assert_eq!(store.get_clip_chain(1).handle, RequestIndex { index: 1 });
}

#[test]
fn building_no_clip_items_gives_the_parent() {
    let (scene, fonts, outputs) = (empty_scene(), HashMap::new(), HashSet::new());
    let mut flattener = begin(&scene, &fonts, &outputs);
    let node = SpatialNodeIndex { index: 1 };
    let same = flattener.build_clip_chain(Vec::new(), node, ClipChainId::Unclipped);
    assert_eq!(same, ClipChainId::Unclipped);
    assert_eq!(flattener.clip_store.clip_chain_nodes.len(), 0);
    let built = flattener.build_clip_chain(
        vec![
            (LayoutPoint::Zero, ClipItemKey::Other(1)),
            (LayoutPoint::Value(PointF { x: f(1.0), y: f(2.0) }), ClipItemKey::Other(2)),
        ],
        node,
        same,
    );
    assert_eq!(built, ClipChainId::Node(1));
    let nodes = &flattener.clip_store.clip_chain_nodes;
    assert_eq!(nodes[0].parent_clip_chain_id, ClipChainId::Unclipped);
    assert_eq!(nodes[1].parent_clip_chain_id, ClipChainId::Node(0));
    assert_eq!(nodes[1].handle, RequestIndex { index: 1 });
    assert_eq!(
        format!("{:?}", flattener.intern_log.requests[1]),
        "Clip(Other(2))"
    );
}

#[test]
fn scroll_root_is_the_outermost_explicit_frame() {
    let (scene, fonts, outputs) = (empty_scene(), HashMap::new(), HashSet::new());
    let mut flattener = begin(&scene, &fonts, &outputs);
    let size = SizeF { width: f(1.0), height: f(1.0) };
    let mut parent = SpatialNodeIndex { index: 1 };
    let mut added = Vec::new();
    let kinds = [
        ScrollFrameKind::Explicit,
        ScrollFrameKind::PipelineRoot,
        ScrollFrameKind::Explicit,
    ];
    for (i, kind) in kinds.iter().enumerate() {
        parent = flattener.add_scroll_frame(
            SpatialId { id: 10 + i as u64, pipeline_id: pipeline(1) },
            parent,
            None,
            pipeline(1),
            LayoutRect::Max,
            &size,
            ScrollSensitivity::Script,
            *kind,
        );
        added.push(parent);
    }
    let root_before = flattener.find_scroll_root(added[2]);
    let frame = flattener.push_reference_frame(
        SpatialId { id: 20, pipeline_id: pipeline(1) },
        Some(SpatialNodeIndex { index: 1 }),
        pipeline(1),
        TransformStyle::Flat,
        SourceTransform::Given(4),
        ReferenceFrameKind::Perspective,
        LayoutVector2D::Zero,
    );
    assert_eq!(added[0].index, 2);
    assert_eq!(flattener.find_scroll_root(added[2]), root_before);
    assert_eq!(flattener.find_scroll_root(added[2]), added[0]);
    assert_eq!(flattener.find_scroll_root(added[1]), added[0]);
    assert_eq!(flattener.find_scroll_root(added[0]), added[0]);
    assert_eq!(flattener.find_scroll_root(frame), root_spatial_node_index());
    assert_eq!(
        flattener.find_scroll_root(root_spatial_node_index()),
        root_spatial_node_index()
    );
    assert_eq!(
        flattener
            .id_to_index_mapper
            .get_spatial_node_index(SpatialId { id: 20, pipeline_id: pipeline(1) }),
        frame
    );
}

#[test]
fn redundant_contexts() {
    let mut parent = context(TransformStyle::Flat);
    let sc = context(TransformStyle::Flat);
    assert!(sc.is_redundant(&parent, true));
    assert!(!sc.is_redundant(&parent, false));

    let mut clipped = context(TransformStyle::Flat);
    clipped.clip_chain_id = ClipChainId::Node(0);
    assert!(!clipped.is_redundant(&parent, true));

    let mut isolated = context(TransformStyle::Flat);
    isolated.blit_reason = BlitReason { preserve_3d: false, clip: false, isolate: true };
    assert!(!isolated.is_redundant(&parent, true));

    let mut cached = context(TransformStyle::Flat);
    cached.create_tile_cache = true;
    assert!(!cached.is_redundant(&parent, true));

    let mut behind = context(TransformStyle::Flat);
    behind.is_backface_visible = false;
    assert!(!behind.is_redundant(&parent, true));

    let mut local = context(TransformStyle::Flat);
    local.requested_raster_space = RasterSpace::Local(f(1.0));
    assert!(!local.is_redundant(&parent, true));
    parent.requested_raster_space = RasterSpace::Local(f(1.0));
    assert!(local.is_redundant(&parent, true));
    parent.requested_raster_space = RasterSpace::Local(f(f32::NAN));
    local.requested_raster_space = RasterSpace::Local(f(f32::NAN));
    assert!(!local.is_redundant(&parent, true));
    parent.requested_raster_space = RasterSpace::Screen;

    // A mix-blend mode counts only where something was drawn before.
    let mut blended = context(TransformStyle::Flat);
    blended.composite_ops.mix_blend_mode =
        Some(display_list_flattener::picture::MixBlendMode { number: 2 });
    assert!(blended.is_redundant(&parent, true));
    parent.primitives.push(instance(0));
    assert!(!blended.is_redundant(&parent, true));

    let mut filtered = context(TransformStyle::Flat);
    filtered
        .composite_ops
        .filters
        .push(display_list_flattener::picture::FilterOp::Given(1));
    assert!(!filtered.is_redundant(&parent, true));

    let mut hierarchy = context(TransformStyle::Flat);
    hierarchy.context_3d =
        Picture3DContext::In { root_data: None, ancestor_index: root_spatial_node_index() };
    assert!(!hierarchy.is_redundant(&parent, true));
}

#[test]
fn preserve_3d_needs_no_filters() {
    assert!(!context(TransformStyle::Flat).is_3d());
    let mut sc = context(TransformStyle::Preserve3D);
    assert!(sc.is_3d());
    sc.composite_ops.filters.push(display_list_flattener::picture::FilterOp::Given(1));
    assert!(!sc.is_3d());
}

#[test]
fn flat_children_are_cut() {
    let mut store = PrimitiveStore::new();
    let mut intern_log = InternLog::new();
    let mut flat = context(TransformStyle::Flat);
    flat.primitives.push(instance(4));
    assert!(flat.cut_flat_item_sequence(&mut store, &mut intern_log).is_none());
    assert_eq!(flat.primitives.len(), 1);

    let mut sc = context(TransformStyle::Preserve3D);
    sc.context_3d =
        Picture3DContext::In { root_data: None, ancestor_index: SpatialNodeIndex { index: 6 } };
    sc.clip_chain_id = ClipChainId::Node(3);
    assert!(sc.cut_flat_item_sequence(&mut store, &mut intern_log).is_none());
    sc.primitives.push(instance(4));
    sc.primitives.push(instance(5));
    let cut = sc.cut_flat_item_sequence(&mut store, &mut intern_log);
    assert_eq!(sc.primitives.len(), 0);
    assert_eq!(store.pictures.len(), 1);
    assert_eq!(store.pictures[0].prim_list.len(), 2);
    assert_eq!(
        format!("{:?}", store.pictures[0].requested_composite_mode),
        "Some(Blit(BlitReason { preserve_3d: true, clip: false, isolate: false }))"
    );
    assert!(matches!(
        store.pictures[0].context_3d,
        Picture3DContext::In { root_data: None, ancestor_index: SpatialNodeIndex { index: 6 } }
    ));
    let cut = cut.unwrap_or_else(|| panic!("there were flat children"));
    assert_eq!(cut.clip_chain_id, ClipChainId::Node(3));
    assert!(matches!(
        cut.kind,
        PrimitiveInstanceKind::Picture {
            data_handle: RequestIndex { index: 0 },
            pic_index: PictureIndex { index: 0 }
        }
    ));
}

#[test]
fn picture_instances_are_interned() {
    let mut intern_log = InternLog::new();
    let made = create_prim_instance(
        PictureIndex { index: 12 },
        PictureCompositeKey::Identity,
        false,
        ClipChainId::Node(1),
        SpatialNodeIndex { index: 2 },
        &mut intern_log,
    );
    assert_eq!(
        format!("{:?}", intern_log.requests[0]),
        "Picture { key: PictureKey { is_backface_visible: false, prim_size: Zero, \
         composite_mode_key: Identity }, data: PrimitiveSceneData { prim_size: Zero, \
         is_backface_visible: false } }"
    );
    assert_eq!(made.spatial_node_index.index, 2);
    assert!(matches!(made.local_clip_rect, LayoutRect::Max));
    assert!(matches!(made.prim_origin, LayoutPoint::Zero));
}

#[test]
fn pushing_and_popping_an_empty_context_is_nothing() {
    let (scene, fonts, outputs) = (empty_scene(), HashMap::new(), HashSet::new());
    let mut flattener = begin(&scene, &fonts, &outputs);
    flattener.add_primitive_to_draw_list(instance(1));
    let before = format!("{:?}", flattener.sc_stack);
    flattener.push_stacking_context(
        pipeline(1),
        CompositeOps::nothing(),
        TransformStyle::Flat,
        true,
        false,
        SpatialNodeIndex { index: 1 },
        ClipChainId::Unclipped,
        RasterSpace::Screen,
    );
    assert_eq!(flattener.sc_stack.len(), 2);
    flattener.pop_stacking_context(true);
    assert_eq!(format!("{:?}", flattener.sc_stack), before);
    assert_eq!(flattener.prim_store.pictures.len(), 0);
    assert_eq!(flattener.intern_log.requests.len(), 0);
}

#[test]
fn hierarchy_instances_go_to_its_root() {
    let (scene, fonts, outputs) = (empty_scene(), HashMap::new(), HashSet::new());
    let mut flattener = begin(&scene, &fonts, &outputs);
    for _ in 0..3 {
        flattener.push_stacking_context(
            pipeline(1),
            CompositeOps::nothing(),
            TransformStyle::Preserve3D,
            true,
            false,
            SpatialNodeIndex { index: 1 },
            ClipChainId::Unclipped,
            RasterSpace::Screen,
        );
    }
    flattener.add_primitive_instance_to_3d_root(instance(1));
    match &flattener.sc_stack[1].context_3d {
        Picture3DContext::In { root_data: Some(prims), ancestor_index } => {
            assert_eq!(prims.len(), 1);
            assert_eq!(*ancestor_index, root_spatial_node_index());
        }
        _ => panic!("the first preserve-3d context is the root"),
    }
    assert!(matches!(
        flattener.sc_stack[3].context_3d,
        Picture3DContext::In { root_data: None, .. }
    ));
}

#[test]
fn visibility_is_what_the_renderer_says() {
    let rectangle = PrimitiveKeyKind::Rectangle { color: color(1.0), draws: true, shadow: None };
    assert!(rectangle.is_visible());
    assert!(!PrimitiveKeyKind::Clear { draws: false, shadow: None }.is_visible());
    let line = LineDecoration { cache_key: None, color: color(0.0), draws: false, shadow: None };
    assert!(!line.is_visible());
}

#[test]
fn shadows_are_kept_with_what_they_show() {
    let shadow = Shadow {
        offset: VectorF { x: f(1.0), y: f(2.0) },
        color: color(0.25),
        blur_radius: f(3.0),
        should_inflate: true,
    };
    let border = NormalBorderPrim {
        border: NormalBorder { number: 6 },
        widths: SideOffsetsF { top: f(1.0), right: f(1.0), bottom: f(1.0), left: f(1.0) },
        draws: true,
        shadow: None,
    };
    let shadowed = border.create_shadow(&shadow);
    assert!(shadowed.draws);
    assert_eq!(shadowed.border.number, 6);
    assert_eq!(format!("{:?}", shadowed.shadow), format!("{:?}", Some(shadow)));
    let pending = PendingPrimitive {
        clip_and_scroll: place(1, ClipChainId::Unclipped),
        info: info(None),
        prim: border,
    };
    assert!(matches!(ShadowItem::from(pending), ShadowItem::NormalBorder(_)));
}

#[test]
fn records_of_primitives() {
    let mut store = PrimitiveStore::new();
    let key = Primitive::Rectangle(PrimitiveKeyKind::Clear { draws: true, shadow: None });
    let first = key.as_instance_kind(RequestIndex { index: 5 }, &mut store, LayoutVector2D::Zero);
    let second = key.as_instance_kind(
        RequestIndex { index: 6 },
        &mut store,
        LayoutVector2D::Value(VectorF { x: f(1.0), y: f(1.0) }),
    );
    assert!(matches!(
        first,
        PrimitiveInstanceKind::Primitive { data_handle: RequestIndex { index: 5 }, record: 0 }
    ));
    assert!(matches!(
        second,
        PrimitiveInstanceKind::Primitive { data_handle: RequestIndex { index: 6 }, record: 1 }
    ));
    assert!(matches!(
        store.records[1].reference_frame_relative_offset,
        LayoutVector2D::Value(_)
    ));
}

#[test]
fn images_of_a_part_of_a_texture() {
    let (scene, fonts, outputs) = (empty_scene(), HashMap::new(), HashSet::new());
    let mut flattener = begin(&scene, &fonts, &outputs);
    flattener.add_image(
        place(1, ClipChainId::Unclipped),
        &info(None),
        SizeF { width: f(10.0), height: f(11.0) },
        SizeF { width: f(2.0), height: f(3.0) },
        Some(TexelRect {
            uv0: PointF { x: f(4.0), y: f(5.0) },
            uv1: PointF { x: f(14.0), y: f(25.0) },
        }),
        ImageKey { namespace: 1, index: 2 },
        ImageRendering::Pixelated,
        AlphaType::PremultipliedAlpha,
        color(1.0),
        true,
        &LayoutVector2D::Zero,
    );
    let expected = Image {
        key: ImageKey { namespace: 1, index: 2 },
        tile_spacing: LayoutSize::SimplifiedSpacing(Box::new(
            display_list_flattener::layout::Tiling {
                stretch_size: LayoutSize::Value(SizeF { width: f(10.0), height: f(11.0) }),
                tile_spacing: LayoutSize::Value(SizeF { width: f(2.0), height: f(3.0) }),
                rect: LayoutRect::Value(rect(1.0, 2.0, 3.0, 4.0)),
            },
        )),
        stretch_size: LayoutSize::Value(SizeF { width: f(10.0), height: f(11.0) }),
        color: color(1.0),
        sub_rect: Some(display_list_flattener::primitives::DeviceIntRect {
            x: display_list_flattener::layout::Scalar::Value(f(4.0)),
            y: display_list_flattener::layout::Scalar::Value(f(5.0)),
            width: display_list_flattener::layout::Scalar::Difference(
                Box::new(display_list_flattener::layout::Scalar::Value(f(14.0))),
                Box::new(display_list_flattener::layout::Scalar::Value(f(4.0))),
            ),
            height: display_list_flattener::layout::Scalar::Difference(
                Box::new(display_list_flattener::layout::Scalar::Value(f(25.0))),
                Box::new(display_list_flattener::layout::Scalar::Value(f(5.0))),
            ),
        }),
        image_rendering: ImageRendering::Pixelated,
        alpha_type: AlphaType::PremultipliedAlpha,
        draws: true,
        shadow: None,
    };
    match &flattener.intern_log.requests[0] {
        display_list_flattener::primitives::InternRequest::Primitive { prim, info, .. } => {
            assert_eq!(format!("{:?}", prim), format!("{:?}", Primitive::Image(expected)));
            assert!(matches!(info.rect, LayoutRect::Simplified(_)));
            assert!(matches!(info.clip_rect, LayoutRect::Value(_)));
        }
        _ => panic!("an image is interned as a primitive"),
    }
}

#[test]
fn yuv_images_have_three_planes() {
    let (scene, fonts, outputs) = (empty_scene(), HashMap::new(), HashSet::new());
    let key = |index| ImageKey { namespace: 1, index };
    let cases = [
        (YuvData::NV12(key(1), key(2)), [key(1), key(2), ImageKey::dummy()]),
        (YuvData::PlanarYCbCr(key(1), key(2), key(3)), [key(1), key(2), key(3)]),
        (
            YuvData::InterleavedYCbCr(key(1)),
            [key(1), ImageKey::dummy(), ImageKey::dummy()],
        ),
    ];
    for (data, planes) in cases {
        let mut flattener = begin(&scene, &fonts, &outputs);
        flattener.add_yuv_image(
            place(1, ClipChainId::Unclipped),
            &info(None),
            data,
            ColorDepth::Color10,
            YuvColorSpace::Rec709,
            ImageRendering::Auto,
            true,
            &LayoutVector2D::Zero,
        );
        match &flattener.intern_log.requests[0] {
            display_list_flattener::primitives::InternRequest::Primitive {
                prim: Primitive::YuvImage(image),
                ..
            } => {
                assert_eq!([image.plane_0, image.plane_1, image.plane_2], planes);
                assert_eq!(format!("{:?}", image.format), format!("{:?}", data.get_format()));
            }
            _ => panic!("a YUV image is interned as such"),
        }
    }
    assert!(matches!(YuvData::InterleavedYCbCr(key(1)).get_format(), YuvFormat::InterleavedYCbCr));
}

#[test]
fn per_primitive_clips() {
    let (scene, fonts, outputs) = (empty_scene(), HashMap::new(), HashSet::new());
    let mut flattener = begin(&scene, &fonts, &outputs);
    let rectangle = PrimitiveKeyKind::Rectangle { color: color(1.0), draws: true, shadow: None };
    flattener.add_primitive(
        place(1, ClipChainId::Unclipped),
        &info(None),
        vec![(LayoutPoint::Zero, ClipItemKey::Other(9))],
        rectangle,
        &LayoutVector2D::Zero,
    );
    assert_eq!(flattener.clip_store.clip_chain_nodes.len(), 1);
    assert_eq!(flattener.sc_stack[0].primitives[0].clip_chain_id, ClipChainId::Node(0));
    // What cannot be seen is not clipped either.
    let hidden = PrimitiveKeyKind::Rectangle { color: color(1.0), draws: false, shadow: None };
    flattener.add_nonshadowable_primitive(
        place(1, ClipChainId::Unclipped),
        &info(Some(ItemTag { value: 1, flags: 0 })),
        vec![(LayoutPoint::Zero, ClipItemKey::Other(9))],
        hidden,
        &LayoutVector2D::Zero,
    );
    assert_eq!(flattener.clip_store.clip_chain_nodes.len(), 1);
    assert_eq!(flattener.sc_stack[0].primitives.len(), 1);
    assert_eq!(flattener.hit_testing_runs.len(), 0);
}

#[test]
fn a_noop_context_draws_into_its_parent() {
    let (scene, fonts, outputs) = (empty_scene(), HashMap::new(), HashSet::new());
    let mut inside = begin(&scene, &fonts, &outputs);
    let mut without = begin(&scene, &fonts, &outputs);
    inside.add_primitive_to_draw_list(instance(1));
    without.add_primitive_to_draw_list(instance(1));
    inside.push_stacking_context(
        pipeline(1),
        CompositeOps::nothing(),
        TransformStyle::Flat,
        true,
        false,
        SpatialNodeIndex { index: 1 },
        ClipChainId::Unclipped,
        RasterSpace::Screen,
    );
    for node in [0, 1, 0] {
        inside.add_primitive_to_draw_list(instance(node));
        without.add_primitive_to_draw_list(instance(node));
    }
    inside.pop_stacking_context(true);
    assert_eq!(format!("{:?}", inside.sc_stack), format!("{:?}", without.sc_stack));
    assert_eq!(inside.sc_stack[0].primitives.len(), 4);
    assert_eq!(inside.prim_store.pictures.len(), 0);
}
