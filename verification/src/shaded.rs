//! What shadows come to: each of them shows the primitives after it, at its
//! offset; and these are drawn themselves.
use vstd::prelude::*;

use crate::composed::{picture_as_it_is, picture_data};
use crate::display_list::{DisplayItem, SpecificDisplayItem};
use crate::drawn::{is_zero, law_float_comparison, lemma_draws_primitive};
use crate::effects::{
    corner, draws_last, draws_primitive, extent, instance_of_primitive, just_passes, listed_next,
    same_places, waits_last,
};
use crate::ids::{RequestIndex, ScrollNodeAndClipChain};
use crate::layout::{F32, LayoutRect, LayoutVector2D};
use crate::picture::{
    FilterOp, Instances, Picture3DContext, PictureCompositeKey, PictureCompositeMode,
    PictureOptions, PicturePrimitive, PrimitiveInstance, PrimitiveRecord, RasterSpace,
    SanitizedFilter,
};
use crate::primitives::{
    Image, InternRequest, LayoutPrimitiveInfo, LineDecoration, NormalBorderPrim, Primitive,
    PrimitiveKeyKind, PrimitiveSceneData, Shadow, TextRun,
};
use crate::shadows::{PendingShadow, ShadowItem};
use crate::stacking_context::Context;
use crate::state::FlattenerState;
use crate::traversal::{FlattenError, FlattenStep, Flattening};

verus! {

/// A primitive that waits for shadows to end.
pub struct Waiting<'a> {
    pub place: ScrollNodeAndClipChain,
    pub info: LayoutPrimitiveInfo,
    pub prim: Primitive<'a>,
    pub draws: bool,
}

/// The primitive that an item is, if it is no shadow.
pub open spec fn waiting<'a>(item: ShadowItem<'a>) -> Option<Waiting<'a>> {
    match item {
        ShadowItem::Shadow(_) => None,
        ShadowItem::Image(p) => Some(
            Waiting {
                place: p.clip_and_scroll,
                info: p.info,
                prim: Primitive::Image(p.prim),
                draws: p.prim.draws,
            },
        ),
        ShadowItem::LineDecoration(p) => Some(
            Waiting {
                place: p.clip_and_scroll,
                info: p.info,
                prim: Primitive::LineDecoration(p.prim),
                draws: p.prim.draws,
            },
        ),
        ShadowItem::NormalBorder(p) => Some(
            Waiting {
                place: p.clip_and_scroll,
                info: p.info,
                prim: Primitive::NormalBorder(p.prim),
                draws: p.prim.draws,
            },
        ),
        ShadowItem::Primitive(p) => Some(
            Waiting {
                place: p.clip_and_scroll,
                info: p.info,
                prim: Primitive::Rectangle(p.prim),
                draws: match p.prim {
                    PrimitiveKeyKind::Rectangle { draws, .. } => draws,
                    PrimitiveKeyKind::Clear { draws, .. } => draws,
                },
            },
        ),
        ShadowItem::TextRun(p) => Some(
            Waiting {
                place: p.clip_and_scroll,
                info: p.info,
                prim: Primitive::TextRun(p.prim),
                draws: p.prim.draws,
            },
        ),
    }
}

/// A primitive as a shadow shows it: the same, but for the shadow.
pub open spec fn in_shadow<'a>(prim: Primitive<'a>, shadow: Shadow) -> Primitive<'a> {
    match prim {
        Primitive::Image(p) => Primitive::Image(Image { shadow: Some(shadow), ..p }),
        Primitive::LineDecoration(p) => Primitive::LineDecoration(
            LineDecoration { shadow: Some(shadow), ..p },
        ),
        Primitive::NormalBorder(p) => Primitive::NormalBorder(
            NormalBorderPrim { shadow: Some(shadow), ..p },
        ),
        Primitive::Rectangle(PrimitiveKeyKind::Rectangle { color, draws, .. }) => {
            Primitive::Rectangle(
                PrimitiveKeyKind::Rectangle { color, draws, shadow: Some(shadow) },
            )
        },
        Primitive::Rectangle(PrimitiveKeyKind::Clear { draws, .. }) => Primitive::Rectangle(
            PrimitiveKeyKind::Clear { draws, shadow: Some(shadow) },
        ),
        Primitive::TextRun(p) => Primitive::TextRun(TextRun { shadow: Some(shadow), ..p }),
        other => other,
    }
}

/// A layout, moved by the offset of a shadow.
pub open spec fn moved_by_shadow(
    info: LayoutPrimitiveInfo,
    shadow: Shadow,
) -> LayoutPrimitiveInfo {
    let by = LayoutVector2D::Value(shadow.offset);
    LayoutPrimitiveInfo {
        rect: LayoutRect::Translated(Box::new(info.rect), Box::new(by)),
        clip_rect: LayoutRect::Translated(Box::new(info.clip_rect), Box::new(by)),
        is_backface_visible: info.is_backface_visible,
        tag: info.tag,
    }
}

/// The primitives among items, in order.
pub open spec fn waiting_among<'a>(items: Seq<ShadowItem<'a>>) -> Seq<Waiting<'a>>
    decreases items.len(),
{
    if items.len() == 0 {
        Seq::empty()
    } else {
        match waiting(items.last()) {
            Some(shown) => waiting_among(items.drop_last()).push(shown),
            None => waiting_among(items.drop_last()),
        }
    }
}

/// Whether the primitives that a shadow shows are made, in order, after what there
/// was: each is interned as the shadow shows it, with its layout moved by the
/// offset of the shadow, and its use is recorded. `list` holds instances of them:
/// each lies where its layout does, and is placed and clipped as it was.
pub open spec fn makes_shown<'a>(
    before: FlattenerState<'a>,
    requests: Seq<InternRequest<'a>>,
    records: Seq<PrimitiveRecord>,
    list: Instances,
    shadow: Shadow,
    shown: Seq<Waiting<'a>>,
    offset: LayoutVector2D,
) -> bool {
    let r = before.requests.len();
    let q = before.prim_store.records.len();
    &&& requests.len() == r + shown.len()
    &&& records.len() == q + shown.len()
    &&& list.len() == shown.len()
    &&& forall|i: int| 0 <= i < r ==> #[trigger] requests[i] == before.requests[i]
    &&& forall|i: int| 0 <= i < q ==> #[trigger] records[i] == before.prim_store.records[i]
    &&& forall|k: int|
        0 <= k < shown.len() ==> {
            let info = moved_by_shadow((#[trigger] shown[k]).info, shadow);
            &&& requests[r + k] == (InternRequest::Primitive {
                prim: in_shadow(shown[k].prim, shadow),
                info,
                data: PrimitiveSceneData {
                    prim_size: extent(info.rect),
                    is_backface_visible: info.is_backface_visible,
                },
            })
            &&& records[q + k] == (PrimitiveRecord {
                data_handle: RequestIndex { index: (r + k) as usize },
                reference_frame_relative_offset: offset,
            })
            &&& list[k] == instance_of_primitive(
                info,
                shown[k].place,
                (r + k) as nat,
                (q + k) as nat,
            )
        }
}

/// The picture of a shadow: what it shows, blurred. A shadow that is not blurred is
/// clipped and rasterised like what is drawn around it.
pub open spec fn picture_of_shadow(
    context: Context,
    pending: PendingShadow,
    list: Instances,
) -> PicturePrimitive<Instances> {
    let sharp = is_zero(pending.shadow.blur_radius);
    PicturePrimitive {
        requested_composite_mode: Some(
            PictureCompositeMode::Filter(
                SanitizedFilter {
                    filter: FilterOp::ShadowBlur { blur_radius: pending.shadow.blur_radius },
                },
            ),
        ),
        context_3d: Picture3DContext::Out,
        pipeline_id: context.pipeline_id,
        frame_output_pipeline_id: None,
        apply_local_clip_rect: sharp,
        requested_raster_space: if sharp {
            context.requested_raster_space
        } else {
            RasterSpace::Local(F32 { bits: 0x3f80_0000 })
        },
        prim_list: list,
        spatial_node_index: pending.clip_and_scroll.spatial_node_index,
        local_clip_rect: LayoutRect::Max,
        tile_cache: None,
        options: Some(PictureOptions { inflate_if_required: pending.shadow.should_inflate }),
        optimize: false,
    }
}

/// Whether a shadow is drawn: a picture of the primitives that it shows, placed and
/// clipped as the shadow is, comes last in the topmost stacking context. Nothing
/// else has changed, and no area can be hit that could not before.
pub open spec fn draws_shadow<'a>(
    before: FlattenerState<'a>,
    after: FlattenerState<'a>,
    pending: PendingShadow,
    shown: Seq<Waiting<'a>>,
    offset: LayoutVector2D,
) -> bool {
    let p = before.prim_store.pictures.len() as int;
    let picture = after.prim_store.pictures.last();
    let last = after.requests.len() - 1;
    &&& same_places(before, after)
    &&& after.pending_shadow_items == before.pending_shadow_items
    &&& after.hit_testing_runs == before.hit_testing_runs
    &&& after.root_pic_index == before.root_pic_index
    &&& last >= 0
    &&& makes_shown(
        before,
        after.requests.drop_last(),
        after.prim_store.records,
        picture.prim_list,
        pending.shadow,
        shown,
        offset,
    )
    &&& after.requests.last() == picture_data::<'a>(
        true,
        PictureCompositeKey::Of(picture.requested_composite_mode),
    )
    &&& after.prim_store.pictures == before.prim_store.pictures.push(picture)
    &&& picture == picture_of_shadow(before.sc_stack.last(), pending, picture.prim_list)
    &&& draws_last(
        before.sc_stack,
        after.sc_stack,
        PrimitiveInstance {
            clip_chain_id: pending.clip_and_scroll.clip_chain_id,
            ..picture_as_it_is(pending.clip_and_scroll.spatial_node_index, last, p)
        },
    )
}

proof fn lemma_parts<'a>(item: ShadowItem<'a>, shadow: Shadow)
    ensures
        match waiting(item) {
            Some(shown) => {
                &&& item.parts() is Some
                &&& item.parts()->0.clip_and_scroll == shown.place
                &&& item.parts()->0.info == shown.info
                &&& item.parts()->0.key == shown.prim
                &&& item.parts()->0.visible == shown.draws
                &&& item.shadow_key(shadow) == Some(in_shadow(shown.prim, shadow))
            },
            None => item.parts() is None && item.shadow_key(shadow) is None,
        },
{
}

pub proof fn lemma_makes_shown<'a>(
    state: FlattenerState<'a>,
    shadow: Shadow,
    items: Seq<ShadowItem<'a>>,
    offset: LayoutVector2D,
)
    ensures
        ({
            let after = state.add_shadow_prims(shadow, items, offset);
            &&& makes_shown(
                state,
                after.requests,
                after.prim_store.records,
                state.added_shadow_prims(shadow, items, offset),
                shadow,
                waiting_among(items),
                offset,
            )
            &&& same_places(state, after)
            &&& after.sc_stack == state.sc_stack
            &&& after.pending_shadow_items == state.pending_shadow_items
            &&& after.hit_testing_runs == state.hit_testing_runs
            &&& after.root_pic_index == state.root_pic_index
            &&& after.prim_store.pictures == state.prim_store.pictures
        }),
    decreases items.len(),
{
    if items.len() > 0 {
        let rest = items.drop_last();
        lemma_makes_shown(state, shadow, rest, offset);
        lemma_parts(items.last(), shadow);
        let before = state.add_shadow_prims(shadow, rest, offset);
        let after = state.add_shadow_prims(shadow, items, offset);
        let list = state.added_shadow_prims(shadow, items, offset);
        let shown = waiting_among(items);
        let r = state.requests.len();
        let q = state.prim_store.records.len();
        if waiting(items.last()) is Some {
            assert forall|k: int| 0 <= k < shown.len() implies {
                let info = moved_by_shadow((#[trigger] shown[k]).info, shadow);
                &&& after.requests[r + k] == (InternRequest::Primitive {
                    prim: in_shadow(shown[k].prim, shadow),
                    info,
                    data: PrimitiveSceneData {
                        prim_size: extent(info.rect),
                        is_backface_visible: info.is_backface_visible,
                    },
                })
                &&& after.prim_store.records[q + k] == (PrimitiveRecord {
                    data_handle: RequestIndex { index: (r + k) as usize },
                    reference_frame_relative_offset: offset,
                })
                &&& list[k] == instance_of_primitive(
                    info,
                    shown[k].place,
                    (r + k) as nat,
                    (q + k) as nat,
                )
            } by {
                if k < waiting_among(rest).len() {
                    assert(shown[k] == waiting_among(rest)[k]);
                }
            }
        }
    }
}

/// When shadows end, what waited is resolved in order. `next` is the scene after
/// the first item is resolved; the others are resolved in it. A shadow is drawn if
/// any primitive comes after it, and shows exactly these; a primitive is drawn
/// itself, if it draws anything.
pub proof fn law_first_waiting_resolved<'a>(
    state: FlattenerState<'a>,
    offset: LayoutVector2D,
) -> (next: FlattenerState<'a>)
    requires
        state.sc_stack.len() > 0,
        state.pending_shadow_items.len() > 0,
    ensures
        ({
            let first = state.pending_shadow_items[0];
            let rest = state.pending_shadow_items.drop_first();
            let before = FlattenerState { pending_shadow_items: rest, ..state };
            &&& state.pop_all_shadows(offset) == next.pop_all_shadows(offset)
            &&& next.pending_shadow_items == rest
            &&& next.sc_stack.len() > 0
            &&& match (first, waiting(first)) {
                (ShadowItem::Shadow(pending), _) => if waiting_among(rest).len() > 0 {
                    draws_shadow(before, next, pending, waiting_among(rest), offset)
                } else {
                    next == before
                },
                (_, Some(shown)) => if shown.draws {
                    draws_primitive(before, next, shown.place, shown.info, shown.prim, offset)
                } else {
                    next == before
                },
                _ => false,
            }
        }),
{
    let items = state.pending_shadow_items;
    let first = items[0];
    let rest = items.drop_first();
    let empty = FlattenerState { pending_shadow_items: Seq::empty(), ..state };
    let before = FlattenerState { pending_shadow_items: rest, ..state };
    let resolved = match first {
        ShadowItem::Shadow(pending) => empty.draw_shadow(pending, rest, offset),
        item => empty.add_shadow_prim_to_draw_list(item.parts()->0, offset),
    };
    let next = FlattenerState { pending_shadow_items: rest, ..resolved };
    match first {
        ShadowItem::Shadow(pending) => {
            let made = empty.add_shadow_prims(pending.shadow, rest, offset);
            let list = empty.added_shadow_prims(pending.shadow, rest, offset);
            lemma_makes_shown(empty, pending.shadow, rest, offset);
            law_float_comparison(pending.shadow.blur_radius, F32 { bits: 0 });
            if waiting_among(rest).len() > 0 {
                assert(next.requests.drop_last() =~= made.requests);
                assert(next.sc_stack.drop_last() =~= state.sc_stack.drop_last());
                assert(next.prim_store.pictures.last().prim_list == list);
            } else {
                assert(made.requests =~= empty.requests);
                assert(made.prim_store.records =~= empty.prim_store.records);
                assert(made.prim_store =~= empty.prim_store);
                assert(made =~= empty);
            }
        },
        _ => {
            let shown = waiting(first)->0;
            lemma_parts(first, arbitrary());
            lemma_draws_primitive(before, shown.place, shown.info, shown.prim, offset);
            let drawn = before.add_nonshadowable_primitive(
                shown.place,
                shown.info,
                Seq::empty(),
                shown.prim,
                true,
                offset,
            );
            assert(before.build_clip_chain(
                Seq::empty(),
                shown.place.spatial_node_index,
                shown.place.clip_chain_id,
            ) == before);
            if shown.draws {
                assert(next =~= drawn);
            }
        },
    }
    assert(FlattenerState { pending_shadow_items: Seq::empty(), ..next } =~= resolved);
    next
}

/// When nothing waits, nothing is resolved.
pub proof fn law_nothing_waiting(state: FlattenerState, offset: LayoutVector2D)
    requires
        state.pending_shadow_items.len() == 0,
    ensures
        state.pop_all_shadows(offset) == state,
{
    assert(state.pending_shadow_items =~= Seq::empty());
    assert(FlattenerState { pending_shadow_items: Seq::empty(), ..state } =~= state);
}

/// The end of shadows resolves what waited for it, relative to the offset of the
/// frame that it is in; nothing waits after it. Where nothing waits, it is an error.
pub proof fn law_shadows_end<'a>(
    before: Flattening<'a>,
    item: DisplayItem,
    place: ScrollNodeAndClipChain,
    info: LayoutPrimitiveInfo,
)
    requires
        listed_next(before, item, place, info),
        item.item is PopAllShadows,
    ensures
        before.state.pending_shadow_items.len() > 0 ==> {
            &&& just_passes(before, before.step())
            &&& before.step().flattening.state == before.state.pop_all_shadows(
                before.frames.last().offset,
            )
        },
        before.state.pending_shadow_items.len() == 0 ==> {
            &&& before.step().result == Err::<FlattenStep, FlattenError>(
                FlattenError::NoPendingShadows,
            )
            &&& before.step().flattening == before
        },
{
    reveal(Flattening::flatten_placed_item);
}

/// A shadow that begins waits, with its place, for what it is to show.
pub proof fn law_shadow_begins<'a>(
    before: Flattening<'a>,
    item: DisplayItem,
    place: ScrollNodeAndClipChain,
    info: LayoutPrimitiveInfo,
    shadow: Shadow,
)
    requires
        listed_next(before, item, place, info),
        item.item == SpecificDisplayItem::PushShadow(shadow),
    ensures
        just_passes(before, before.step()),
        waits_last(
            before.state,
            before.step().flattening.state,
            ShadowItem::Shadow(PendingShadow { shadow, clip_and_scroll: place }),
        ),
{
    reveal(Flattening::flatten_placed_item);
}

/// Every primitive that a shadow shows lies at the corner of its rectangle, moved by
/// the offset of the shadow; and that rectangle is interned.
pub proof fn law_shadow_is_offset<'a>(
    state: FlattenerState<'a>,
    pending: PendingShadow,
    items: Seq<ShadowItem<'a>>,
    offset: LayoutVector2D,
    k: int,
)
    requires
        state.sc_stack.len() > 0,
        0 <= k < waiting_among(items).len(),
    ensures
        ({
            let after = state.draw_shadow(pending, items, offset);
            let list = after.prim_store.pictures.last().prim_list;
            let rect = LayoutRect::Translated(
                Box::new(waiting_among(items)[k].info.rect),
                Box::new(LayoutVector2D::Value(pending.shadow.offset)),
            );
            &&& after.prim_store.pictures.len() == state.prim_store.pictures.len() + 1
            &&& list.len() == waiting_among(items).len()
            &&& list[k].prim_origin == corner(rect)
            &&& after.requests[state.requests.len() + k] matches InternRequest::Primitive {
                info,
                data,
                ..
            } && info.rect == rect && data.prim_size == extent(rect)
        }),
{
    lemma_makes_shown(state, pending.shadow, items, offset);
    let made = state.add_shadow_prims(pending.shadow, items, offset);
    let after = state.draw_shadow(pending, items, offset);
    let shown = waiting_among(items)[k];
    assert(after.requests[state.requests.len() + k] == made.requests[state.requests.len() + k]);
}

} // verus!
