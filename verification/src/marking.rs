//! Which pictures are marked to be collapsed: those that a stacking context makes
//! for its filters, and no others.
use vstd::prelude::*;

use crate::clip_store::ClipRegion;
use crate::display_list::{DisplayItem, SpecificDisplayItem};
use crate::growth::law_step_grows;
use crate::ids::{ClipId, ScrollNodeAndClipChain};
use crate::laws::law_filters_nest;
use crate::layout::LayoutVector2D;
use crate::picture::{
    FilterOp, Instances, PictureCompositeKey, PictureCompositeMode, PicturePrimitive,
    SanitizedFilter,
};
use crate::primitives::Shadow;
use crate::runs::{at, law_run_wf, run_ok, take_turn, turn_ok, turn_ok_at, Turn};
use crate::shadows::ShadowItem;
use crate::soundness::lemma_link_clips_keeps;
use crate::stacking_context::Context;
use crate::state::{
    leaf_composite_mode, leaf_picture, lemma_build_clip_chain_keeps, FlattenerState, PictureChain,
};
use crate::stepping::{frame_ok_at, lemma_add_clip_keeps, lemma_contexts_open};
use crate::traversal::{item_clip_and_scroll, past, FlattenError, FlattenStep, Flattening};

verus! {

/// Whether a picture is drawn through a filter.
pub open spec fn draws_filtered(picture: PicturePrimitive<Instances>) -> bool {
    picture.requested_composite_mode matches Some(PictureCompositeMode::Filter(_))
}

/// Whether, of the pictures from `from` on, exactly those that are drawn through
/// a filter are marked.
pub open spec fn filters_marked(
    pictures: Seq<PicturePrimitive<Instances>>,
    from: nat,
) -> bool {
    forall|i: int|
        from <= i < pictures.len() ==> ((#[trigger] pictures[i]).optimize == draws_filtered(
            pictures[i],
        ))
}

/// Whether no picture from `from` on is marked.
pub open spec fn none_marked(pictures: Seq<PicturePrimitive<Instances>>, from: nat) -> bool {
    forall|i: int| from <= i < pictures.len() ==> !(#[trigger] pictures[i]).optimize
}

/// Whether the embedder is asked to collapse pictures.
pub open spec fn asks_to_optimize(result: Result<FlattenStep, FlattenError>) -> bool {
    result matches Ok(FlattenStep::OptimizePictures { .. })
}

/// The pictures for filters are marked.
proof fn lemma_with_filters_marks(
    chain: PictureChain,
    sc: Context,
    filters: Seq<FilterOp>,
    from: nat,
)
    requires
        filters_marked(chain.state.prim_store.pictures, from),
        from <= chain.state.prim_store.pictures.len(),
    ensures
        filters_marked(chain.with_filters(sc, filters).state.prim_store.pictures, from),
    decreases filters.len(),
{
    if filters.len() > 0 {
        let next = chain.wrapped(
            sc,
            PictureCompositeMode::Filter(SanitizedFilter { filter: filters[0] }),
            true,
        );
        lemma_with_filters_marks(next, sc, filters.drop_first(), from);
    }
}

/// Of the pictures of a stacking context, those for its filters are marked.
proof fn lemma_context_pictures_mark(
    state: FlattenerState,
    sc: Context,
    parent_is_empty: bool,
    from: nat,
)
    requires
        none_marked(state.prim_store.pictures, from),
        filters_marked(state.prim_store.pictures, from),
        from <= state.prim_store.pictures.len(),
    ensures
        ({
            let pictures = state.context_pictures(sc, parent_is_empty).state.prim_store.pictures;
            &&& filters_marked(pictures, from)
            &&& sc.composite_ops.filters.len() == 0 ==> none_marked(pictures, from)
            &&& sc.composite_ops.filters.len() > 0 ==> exists|i: int|
                from <= i < pictures.len() && (#[trigger] pictures[i]).optimize
        }),
{
    let inner = state.add_context_picture(
        sc,
        leaf_picture(sc),
        PictureCompositeKey::Of(leaf_composite_mode(sc)),
    ).with_3d_container(sc);
    let filters = sc.composite_ops.filters;
    let filtered = inner.with_filters(sc, filters);
    let pictures = filtered.with_mix_blend(sc, parent_is_empty).state.prim_store.pictures;
    lemma_with_filters_marks(inner, sc, filters, from);
    if filters.len() == 0 {
        assert(filtered == inner);
    } else {
        let count = inner.state.prim_store.pictures.len() as int;
        law_filters_nest(inner, sc, filters);
        assert(filtered.state.prim_store.pictures[count + 0].optimize);
        assert(pictures[count] == filtered.state.prim_store.pictures[count]);
    }
}

/// When a stacking context ends, exactly the pictures that it makes for its
/// filters are marked, and the embedder is asked to collapse them where there are
/// any.
pub proof fn law_end_stacking_context_marks(flattening: Flattening, node_is_identity: bool)
    ensures
        ({
            let before = flattening.state.prim_store;
            let outcome = flattening.end_stacking_context(node_is_identity);
            let pictures = outcome.flattening.state.prim_store.pictures;
            &&& filters_marked(pictures, before.pictures.len())
            &&& match outcome.result {
                Ok(FlattenStep::OptimizePictures { from }) => {
                    &&& from == before.next_picture()
                    &&& exists|i: int|
                        before.pictures.len() <= i < pictures.len()
                            && (#[trigger] pictures[i]).optimize
                },
                _ => none_marked(pictures, before.pictures.len()),
            }
        }),
{
    let state = flattening.state;
    let from = state.prim_store.pictures.len();
    if !state.top_is_redundant(node_is_identity) {
        let sc = state.sc_stack.last();
        let below = FlattenerState { sc_stack: state.sc_stack.drop_last(), ..state };
        let parent_is_empty = below.sc_stack.len() == 0
            || below.sc_stack.last().primitives.len() == 0;
        let cached = if sc.create_tile_cache {
            below.setup_picture_caching(sc.primitives)
        } else {
            below
        };
        let prims = if sc.create_tile_cache {
            below.cached_primitives(sc.primitives)
        } else {
            sc.primitives
        };
        let cached_sc = Context { primitives: prims, ..sc };
        lemma_context_pictures_mark(cached, cached_sc, parent_is_empty, from);
    }
}

/// The primitives of a shadow are no pictures.
proof fn lemma_add_shadow_prims_pictures<'a>(
    state: FlattenerState<'a>,
    shadow: Shadow,
    items: Seq<ShadowItem<'a>>,
    offset: LayoutVector2D,
)
    ensures
        state.add_shadow_prims(shadow, items, offset).prim_store.pictures
            == state.prim_store.pictures,
    decreases items.len(),
{
    if items.len() > 0 {
        lemma_add_shadow_prims_pictures(state, shadow, items.drop_last(), offset);
    }
}

/// The pictures of shadows are not marked.
proof fn lemma_draw_pending_marks<'a>(
    state: FlattenerState<'a>,
    items: Seq<ShadowItem<'a>>,
    offset: LayoutVector2D,
    from: nat,
)
    requires
        none_marked(state.prim_store.pictures, from),
    ensures
        none_marked(state.draw_pending(items, offset).prim_store.pictures, from),
    decreases items.len(),
{
    if items.len() > 0 {
        let rest = items.drop_first();
        let next = match items[0] {
            ShadowItem::Shadow(pending) => state.draw_shadow(pending, rest, offset),
            item => state.add_shadow_prim_to_draw_list(item.parts()->0, offset),
        };
        if let ShadowItem::Shadow(pending) = items[0] {
            lemma_add_shadow_prims_pictures(state, pending.shadow, rest, offset);
        }
        lemma_draw_pending_marks(next, rest, offset, from);
    }
}

proof fn lemma_drawn_item_marks<'a>(
    flattening: Flattening<'a>,
    item: &'a DisplayItem,
    cs: ScrollNodeAndClipChain,
)
    requires
        item.item is Image || item.item is YuvImage || item.item is Text || item.item is Rectangle
            || item.item is ClearRectangle || item.item is Line,
    ensures
        none_marked(
            flattening.flatten_placed_item(item, cs).flattening.state.prim_store.pictures,
            flattening.state.prim_store.pictures.len(),
        ),
        !asks_to_optimize(flattening.flatten_placed_item(item, cs).result),
{
    reveal(Flattening::flatten_placed_item);
}

proof fn lemma_gradient_marks<'a>(
    flattening: Flattening<'a>,
    item: &'a DisplayItem,
    cs: ScrollNodeAndClipChain,
)
    requires
        item.item is Gradient || item.item is RadialGradient || item.item is Border
            || item.item is BoxShadow,
    ensures
        none_marked(
            flattening.flatten_placed_item(item, cs).flattening.state.prim_store.pictures,
            flattening.state.prim_store.pictures.len(),
        ),
        !asks_to_optimize(flattening.flatten_placed_item(item, cs).result),
{
    reveal(Flattening::flatten_placed_item);
}

proof fn lemma_structural_item_marks<'a>(
    flattening: Flattening<'a>,
    item: &'a DisplayItem,
    cs: ScrollNodeAndClipChain,
)
    requires
        !(item.item is Image || item.item is YuvImage || item.item is Text || item.item
            is Rectangle || item.item is ClearRectangle || item.item is Line),
        !(item.item is Gradient || item.item is RadialGradient || item.item is Border || item.item
            is BoxShadow),
    ensures
        none_marked(
            flattening.flatten_placed_item(item, cs).flattening.state.prim_store.pictures,
            flattening.state.prim_store.pictures.len(),
        ),
        !asks_to_optimize(flattening.flatten_placed_item(item, cs).result),
{
    reveal(Flattening::flatten_placed_item);
    let state = flattening.state;
    let offset = flattening.top().offset;
    match item.item {
        SpecificDisplayItem::PopAllShadows => {
            lemma_draw_pending_marks(
                FlattenerState { pending_shadow_items: Seq::empty(), ..state },
                state.pending_shadow_items,
                offset,
                state.prim_store.pictures.len(),
            );
        },
        SpecificDisplayItem::Clip { id, image_mask, complex_clips } => {
            lemma_add_clip_keeps(
                state,
                id,
                item.space_and_clip,
                ClipRegion::create_for_clip_node(
                    item.clip_rect,
                    &complex_clips,
                    image_mask,
                    offset,
                ),
            );
        },
        SpecificDisplayItem::ScrollFrame { clip_id, image_mask, complex_clips, .. } => {
            lemma_add_clip_keeps(
                state,
                clip_id,
                item.space_and_clip,
                ClipRegion::create_for_clip_node(
                    item.clip_rect,
                    &complex_clips,
                    image_mask,
                    offset,
                ),
            );
        },
        SpecificDisplayItem::Iframe { pipeline_id } => {
            lemma_add_clip_keeps(
                state,
                ClipId::root(pipeline_id),
                item.space_and_clip,
                ClipRegion::create_for_clip_node_with_local_clip(item.clip_rect, offset),
            );
        },
        SpecificDisplayItem::ClipChain { id, parent, clip_ids } => {
            let parent_clip_chain_id = match parent {
                Some(parent_id) => state.mapping.clips[ClipId::ClipChain(parent_id)].id,
                None => state.pipeline_clip_chain_stack.last(),
            };
            lemma_link_clips_keeps(state, clip_ids@, parent_clip_chain_id);
        },
        _ => {},
    }
}

/// No step marks a picture, or asks to collapse one. The root stacking context,
/// which ends in a step, has no filters; every other one ends only when the
/// embedder has answered.
pub proof fn law_step_marks_nothing(flattening: Flattening)
    requires
        flattening.wf(),
    ensures
        none_marked(
            flattening.step().flattening.state.prim_store.pictures,
            flattening.state.prim_store.pictures.len(),
        ),
        !asks_to_optimize(flattening.step().result),
{
    if flattening.frames.len() > 0 {
        let top = flattening.top();
        let next = flattening.with_cursor(past(top.list@, top.cursor));
        assert(frame_ok_at(flattening.frames, flattening.frames.len() - 1));
        lemma_contexts_open(flattening.frames);
        if top.kind is Root {
            assert(flattening.state.sc_stack.last() == flattening.state.sc_stack[0]);
            law_end_stacking_context_marks(flattening, false);
        }
        let item = &top.list@[top.cursor as int];
        if let Ok(cs) = item_clip_and_scroll(
            flattening.state,
            *item,
            next.top().apply_pipeline_clip,
        ) {
            if item.item is Image || item.item is YuvImage || item.item is Text || item.item
                is Rectangle || item.item is ClearRectangle || item.item is Line {
                lemma_drawn_item_marks(next, item, cs);
            } else if item.item is Gradient || item.item is RadialGradient || item.item is Border
                || item.item is BoxShadow {
                lemma_gradient_marks(next, item, cs);
            } else {
                lemma_structural_item_marks(next, item, cs);
            }
        }
    }
}

/// Whether a picture is marked at some point of a run.
pub open spec fn marked_at<'a>(
    start: Flattening<'a>,
    turns: Seq<Turn<'a>>,
    k: int,
    pic: int,
) -> bool {
    let pictures = at(start, turns, k).state.prim_store.pictures;
    0 <= pic < pictures.len() && pictures[pic].optimize
}

/// Whether a turn tells how a picture is drawn now.
pub open spec fn optimizes(turn: Turn, pic: int) -> bool {
    turn matches Turn::Optimized(pic_index, _) && pic_index.index == pic
}

/// Whether the embedder tells of a picture, from some turn on.
pub open spec fn optimized_from<'a>(turns: Seq<Turn<'a>>, from: int, pic: int) -> bool {
    exists|j: int| from <= j < turns.len() && #[trigger] optimizes(turns[j], pic)
}

/// Whether the embedder does all that it is asked for in a run: of each picture
/// that is marked after a stacking context has ended, it tells later on how the
/// picture is drawn.
pub open spec fn requests_answered<'a>(start: Flattening<'a>, turns: Seq<Turn<'a>>) -> bool {
    forall|k: int, pic: int|
        1 <= k <= turns.len() && turns[k - 1] is End && #[trigger] marked_at(start, turns, k, pic)
            ==> optimized_from(turns, k, pic)
}

/// A picture that a turn leaves marked was marked before, or the turn ends a
/// stacking context. A turn that tells of it leaves it unmarked.
proof fn lemma_turn_marks<'a>(start: Flattening<'a>, turns: Seq<Turn<'a>>, k: int, pic: int)
    requires
        run_ok(start, turns),
        0 <= k < turns.len(),
        marked_at(start, turns, k + 1, pic),
    ensures
        marked_at(start, turns, k, pic) || turns[k] is End,
        !optimizes(turns[k], pic),
{
    reveal(take_turn);
    reveal(turn_ok);
    law_run_wf(start, turns, k);
    assert(turn_ok_at(start, turns, k));
    let before = at(start, turns, k);
    let pictures = before.state.prim_store.pictures;
    let after = at(start, turns, k + 1).state.prim_store.pictures;
    assert(at(start, turns, k + 1) == take_turn(before, turns[k]));
    match turns[k] {
        Turn::Step => {
            law_step_grows(before);
            law_step_marks_nothing(before);
            if pic < pictures.len() {
                assert(pictures[pic] == after.subrange(0, pictures.len() as int)[pic]);
            }
        },
        Turn::End(_) => {},
        Turn::Add(a) => {
            lemma_build_clip_chain_keeps(
                before.state,
                a.clip_items,
                a.clip_and_scroll.spatial_node_index,
                a.clip_and_scroll.clip_chain_id,
            );
            assert(after == pictures);
        },
        Turn::Optimized(..) => {},
    }
}

/// A picture that is marked at some point of a run was marked from the start, or
/// since a stacking context ended. The embedder has not told of it since.
proof fn lemma_marked_since<'a>(
    start: Flattening<'a>,
    turns: Seq<Turn<'a>>,
    k: int,
    pic: int,
) -> (since: int)
    requires
        run_ok(start, turns),
        0 <= k <= turns.len(),
        marked_at(start, turns, k, pic),
    ensures
        0 <= since <= k,
        marked_at(start, turns, since, pic),
        since == 0 || turns[since - 1] is End,
        forall|j: int| since <= j < k ==> !#[trigger] optimizes(turns[j], pic),
    decreases k,
{
    if k == 0 {
        0
    } else {
        lemma_turn_marks(start, turns, k - 1, pic);
        if turns[k - 1] is End {
            k
        } else {
            lemma_marked_since(start, turns, k - 1, pic)
        }
    }
}

/// When no picture is marked at the start of a run, and the embedder does all
/// that it is asked for, no picture is marked at its end.
pub proof fn law_answered_run_marks_nothing<'a>(start: Flattening<'a>, turns: Seq<Turn<'a>>)
    requires
        run_ok(start, turns),
        none_marked(start.state.prim_store.pictures, 0),
        requests_answered(start, turns),
    ensures
        none_marked(at(start, turns, turns.len() as int).state.prim_store.pictures, 0),
{
    let n = turns.len() as int;
    let pictures = at(start, turns, n).state.prim_store.pictures;
    assert forall|pic: int| 0 <= pic < pictures.len() implies !(
        #[trigger] pictures[pic]).optimize by {
        if pictures[pic].optimize {
            assert(marked_at(start, turns, n, pic));
            let since = lemma_marked_since(start, turns, n, pic);
            assert(at(start, turns, 0) == start);
            assert(since > 0);
            assert(optimized_from(turns, since, pic));
        }
    }
}

} // verus!
