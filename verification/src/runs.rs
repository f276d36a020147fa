//! What holds of whole runs: from the step that opens a frame to the step that
//! closes it, and from the first to the last of many steps.
use vstd::prelude::*;

use crate::clip_store::{ClipItemKey, ClipRegion};
use crate::contexts::lemma_context_pictures_keep;
use crate::display_list::{DisplayItem, SpecificDisplayItem};
use crate::growth::{law_end_stacking_context_grows, law_step_grows, lemma_prefix_trans};
use crate::ids::{
    ClipChainId, ClipId, PictureIndex, PipelineId, ScrollNodeAndClipChain, SpatialId,
};
use crate::layout::{LayoutPoint, LayoutVector2D};
use crate::picture::{
    Picture3DContext, PictureCompositeKey, PictureCompositeMode, PrimitiveInstance,
};
use crate::primitives::{LayoutPrimitiveInfo, Primitive};
use crate::shadows::ShadowItem;
use crate::soundness::{lemma_add_shadow_prims_keep, lemma_link_clips_keeps, pending_place};
use crate::stacking_context::Context;
use crate::state::{
    lemma_build_clip_chain_keeps, root_3d_place, shadow_composite_mode, FlattenerState,
};
use crate::stepping::{
    contexts_open, frame_ok_at, frames_ok, iframes_open,
    law_embedder_adds_nonshadowable_primitive, law_embedder_adds_primitive,
    law_end_stacking_context_wf, law_picture_optimized_wf, law_step_wf, lemma_add_clip_keeps,
    lemma_contexts_open, lemma_replace_top_ok, request_placed,
};
use crate::traversal::{
    at_end_of_frame, item_clip_and_scroll, past, stacking_context_empty, Flattening, Frame,
    FrameKind,
};

verus! {

/// Whether an item begins what a later item of the same display list ends.
pub open spec fn opens(item: DisplayItem) -> bool {
    item.item is PushStackingContext || item.item is PushReferenceFrame
}

/// The place just after the item that ends what is open at `cursor`, where
/// `depth` more things are open inside it; the end of the list where there is no
/// such item. Where `depth` is negative, it has ended already.
pub open spec fn scan_end(list: Seq<DisplayItem>, cursor: int, depth: int) -> int
    decreases list.len() - cursor,
{
    if depth < 0 || cursor >= list.len() {
        cursor
    } else if list[cursor].spec_is_pop() {
        scan_end(list, cursor + 1, depth - 1)
    } else if opens(list[cursor]) {
        scan_end(list, cursor + 1, depth + 1)
    } else {
        scan_end(list, cursor + 1, depth)
    }
}

/// The place just after the item that matches the one at `cursor`, which begins
/// something.
pub open spec fn matching_end(list: Seq<DisplayItem>, cursor: int) -> int {
    scan_end(list, cursor + 1, 0)
}

/// The highest of the frames from the one at `base` up that are all in its
/// display list.
pub open spec fn list_top(frames: Seq<Frame>, base: int) -> int
    decreases frames.len() - base,
{
    if base + 1 < frames.len() && !(frames[base + 1].kind is Iframe) {
        list_top(frames, base + 1)
    } else {
        base
    }
}

/// How far the display list of a frame has been passed.
pub open spec fn position(frames: Seq<Frame>, base: int) -> int {
    frames[list_top(frames, base)].cursor as int
}

/// How much is open inside a frame, in its display list; -1 when the frame
/// itself is closing.
pub open spec fn depth_above(frames: Seq<Frame>, base: int) -> int {
    let top = list_top(frames, base);
    top - base - if frames[top].kind is ClosingStackingContext {
        1int
    } else {
        0
    }
}

/// Where a frame will end.
pub open spec fn frame_end(frames: Seq<Frame>, base: int) -> int {
    scan_end(frames[base].list@, position(frames, base), depth_above(frames, base))
}

/// Whether `top` is the highest of the frames from the one at `base` up that are
/// all in its display list.
pub open spec fn tops_list(frames: Seq<Frame>, base: int, top: int) -> bool {
    &&& base <= top < frames.len()
    &&& forall|i: int| base < i <= top ==> !((#[trigger] frames[i]).kind is Iframe)
    &&& top + 1 < frames.len() ==> frames[top + 1].kind is Iframe
}

proof fn lemma_list_top(frames: Seq<Frame>, base: int)
    requires
        base < frames.len(),
    ensures
        tops_list(frames, base, list_top(frames, base)),
    decreases frames.len() - base,
{
    if base + 1 < frames.len() && !(frames[base + 1].kind is Iframe) {
        lemma_list_top(frames, base + 1);
    }
}

proof fn lemma_list_top_is(frames: Seq<Frame>, base: int, top: int)
    requires
        tops_list(frames, base, top),
    ensures
        list_top(frames, base) == top,
    decreases top - base,
{
    if base < top {
        assert(!(frames[base + 1].kind is Iframe));
        lemma_list_top_is(frames, base + 1, top);
    }
}

/// All frames of a block are in one display list.
proof fn lemma_block_list(frames: Seq<Frame>, base: int, i: int)
    requires
        frames_ok(frames),
        0 <= base <= i <= list_top(frames, base),
        base < frames.len(),
    ensures
        frames[i].list == frames[base].list,
    decreases i - base,
{
    lemma_list_top(frames, base);
    if base < i {
        lemma_block_list(frames, base, i - 1);
        assert(frame_ok_at(frames, i));
        assert(!(frames[i].kind is Iframe));
    }
}

/// What a step, or the end of a stacking context, does to the frames.
pub enum FrameMove {
    /// Nothing.
    Stay,
    /// An item is passed, and opens nothing.
    Pass,
    /// An empty stacking context is passed.
    Skip,
    /// An item is passed, and opens a frame in the same display list.
    Open,
    /// An item is passed, and opens a frame in another display list.
    Enter,
    /// The items of a stacking context are done.
    Done,
    /// A frame is closed, and the one below goes on where it ended.
    Close,
    /// A frame is closed, and the one below goes on where it was.
    Leave,
}

/// Frames with the topmost replaced.
pub open spec fn with_top_frame<'a>(frames: Seq<Frame<'a>>, frame: Frame<'a>) -> Seq<Frame<'a>> {
    frames.drop_last().push(frame)
}

/// Whether frames change as a move says.
pub open spec fn frames_move<'a>(
    before: Seq<Frame<'a>>,
    after: Seq<Frame<'a>>,
    frame_move: FrameMove,
) -> bool {
    let top = before.last();
    let list = top.list@;
    let cursor = top.cursor as int;
    let passed = past(list, top.cursor);
    let below = before.drop_last();
    &&& before.len() > 0
    &&& match frame_move {
        FrameMove::Stay => after == before,
        FrameMove::Pass => {
            &&& cursor < list.len() && !list[cursor].spec_is_pop() && !opens(list[cursor])
            &&& !(top.kind is ClosingStackingContext)
            &&& after == with_top_frame(before, Frame { cursor: passed, ..top })
        },
        FrameMove::Skip => {
            &&& cursor < list.len() && list[cursor].item is PushStackingContext
            &&& stacking_context_empty(list, cursor + 1)
            &&& !(top.kind is ClosingStackingContext)
            &&& after == with_top_frame(before, Frame { cursor: past(list, passed), ..top })
        },
        FrameMove::Open => {
            &&& cursor < list.len() && opens(list[cursor])
            &&& !(top.kind is ClosingStackingContext)
            &&& after.len() == before.len() + 1
            &&& after.drop_last() == with_top_frame(before, Frame { cursor: passed, ..top })
            &&& after.last().list == top.list && after.last().cursor == passed
            &&& after.last().kind is StackingContext || after.last().kind is ReferenceFrame
        },
        FrameMove::Enter => {
            &&& cursor < list.len() && list[cursor].item is Iframe
            &&& !(top.kind is ClosingStackingContext)
            &&& after.len() == before.len() + 1
            &&& after.drop_last() == with_top_frame(before, Frame { cursor: passed, ..top })
            &&& after.last().kind is Iframe && after.last().cursor == 0
        },
        FrameMove::Done => {
            &&& at_end_of_frame(list, cursor)
            &&& top.kind is StackingContext
            &&& after == with_top_frame(
                before,
                Frame { kind: FrameKind::ClosingStackingContext, cursor: passed, ..top },
            )
        },
        FrameMove::Close => {
            &&& below.len() > 0
            &&& top.kind is ClosingStackingContext || (top.kind is ReferenceFrame
                && at_end_of_frame(list, cursor))
            &&& after == with_top_frame(
                below,
                Frame {
                    cursor: if top.kind is ClosingStackingContext {
                        top.cursor
                    } else {
                        passed
                    },
                    ..below.last()
                },
            )
        },
        FrameMove::Leave => {
            &&& at_end_of_frame(list, cursor)
            &&& below.len() > 0
            &&& top.kind is Iframe
            &&& after == below
        },
    }
}

/// What happens to a frame that stays open: what is below it, and its display
/// list, stay the same; where it will end stays the same; and its display list
/// is passed forward, item by item, or over an empty stacking context at once.
proof fn lemma_frame_stays<'a>(
    before: Seq<Frame<'a>>,
    after: Seq<Frame<'a>>,
    frame_move: FrameMove,
    base: int,
)
    requires
        frames_ok(before),
        frames_ok(after),
        frames_move(before, after, frame_move),
        0 <= base < before.len(),
        base < after.len(),
    ensures
        after.take(base) == before.take(base),
        after[base].list == before[base].list,
        after[base].kind is Iframe == before[base].kind is Iframe,
        frame_end(after, base) == frame_end(before, base),
        position(before, base) <= position(after, base),
        position(after, base) != position(before, base) ==> {
            &&& list_top(before, base) == before.len() - 1
            &&& !(before.last().kind is ClosingStackingContext)
            &&& position(before, base) < before[base].list@.len()
            &&& position(after, base) == position(before, base) + 1 || {
                &&& position(after, base) == position(before, base) + 2
                &&& before[base].list@[position(before, base)].item is PushStackingContext
                &&& before[base].list@[position(before, base) + 1].item is PopStackingContext
            }
        },
{
    let last = before.len() - 1;
    let top = before.last();
    let list = before[base].list@;
    let block = list_top(before, base);
    assert(frame_ok_at(before, last));
    assert(frame_ok_at(before, base));
    assert(before[base].list.len() == list.len());
    assert(top.list.len() == top.list@.len());
    lemma_list_top(before, base);
    lemma_list_top(after, base);
    lemma_block_list(before, base, block);
    assert(after.take(base) =~= before.take(base));
    reveal_with_fuel(scan_end, 3);
    match frame_move {
        FrameMove::Stay => {},
        FrameMove::Pass => {
            lemma_list_top_is(after, base, block);
        },
        FrameMove::Skip => {
            lemma_list_top_is(after, base, block);
        },
        FrameMove::Done => {
            lemma_list_top_is(after, base, block);
        },
        FrameMove::Open => {
            assert(after[last] == after.drop_last()[last]);
            if block == last {
                assert forall|i: int| base < i <= last + 1 implies !(
                (#[trigger] after[i]).kind is Iframe) by {
                    if i < last {
                        assert(after[i] == after.drop_last()[i]);
                        assert(before[i].kind == after[i].kind);
                    } else if i == last {
                        assert(!(before[last].kind is Iframe));
                    }
                }
                lemma_list_top_is(after, base, last + 1);
            } else {
                assert forall|i: int| base < i <= block implies !(
                (#[trigger] after[i]).kind is Iframe) by {
                    assert(after[i] == after.drop_last()[i]);
                    assert(!(before[i].kind is Iframe));
                }
                assert(after[block + 1] == after.drop_last()[block + 1]);
                assert(after[block] == after.drop_last()[block]);
                lemma_list_top_is(after, base, block);
            }
            assert(after[base] == after.drop_last()[base]);
        },
        FrameMove::Enter => {
            assert forall|i: int| base < i <= block implies !(
            (#[trigger] after[i]).kind is Iframe) by {
                assert(after[i] == after.drop_last()[i]);
                assert(!(before[i].kind is Iframe));
            }
            if block < last {
                assert(after[block + 1] == after.drop_last()[block + 1]);
            }
            assert(after[block] == after.drop_last()[block]);
            assert(after[base] == after.drop_last()[base]);
            lemma_list_top_is(after, base, block);
        },
        FrameMove::Close => {
            assert(frame_ok_at(before, last - 1));
            if block == last {
                assert forall|i: int| base < i <= last - 1 implies !(
                (#[trigger] after[i]).kind is Iframe) by {
                    assert(!(before[i].kind is Iframe));
                }
                lemma_list_top_is(after, base, last - 1);
            } else {
                assert forall|i: int| base < i <= block implies !(
                (#[trigger] after[i]).kind is Iframe) by {
                    assert(!(before[i].kind is Iframe));
                }
                lemma_list_top_is(after, base, block);
            }
        },
        FrameMove::Leave => {
            assert forall|i: int| base < i <= block && i < last implies !(
            (#[trigger] after[i]).kind is Iframe) by {
                assert(!(before[i].kind is Iframe));
            }
            lemma_list_top_is(after, base, block);
        },
    }
}

/// What the next step does to the frames.
pub open spec fn step_move(flattening: Flattening) -> FrameMove {
    let top = flattening.top();
    let list = top.list@;
    let cursor = top.cursor as int;
    if top.kind is ClosingStackingContext {
        FrameMove::Stay
    } else if at_end_of_frame(list, cursor) {
        match top.kind {
            FrameKind::StackingContext => FrameMove::Done,
            FrameKind::ReferenceFrame => FrameMove::Close,
            FrameKind::Iframe => FrameMove::Leave,
            _ => FrameMove::Stay,
        }
    } else {
        match list[cursor].item {
            SpecificDisplayItem::PushStackingContext { .. } => if stacking_context_empty(
                list,
                cursor + 1,
            ) {
                FrameMove::Skip
            } else {
                FrameMove::Open
            },
            SpecificDisplayItem::PushReferenceFrame(_) => FrameMove::Open,
            SpecificDisplayItem::Iframe {
                pipeline_id,
            } => if flattening.state.scene.pipelines@.contains_key(pipeline_id.key()) {
                FrameMove::Enter
            } else {
                FrameMove::Pass
            },
            _ => FrameMove::Pass,
        }
    }
}

/// What a step does to the frames: an item opens a frame in its display list if
/// and only if it begins a reference frame, or a stacking context that is not
/// empty; it opens one in another display list if and only if it is an iframe
/// whose pipeline is there; all other items are just passed.
pub proof fn law_step_moves(flattening: Flattening)
    requires
        flattening.wf(),
        flattening.frames.len() > 0,
        flattening.step().result is Ok,
        flattening.step().flattening.frames.len() > 0,
    ensures
        frames_move(
            flattening.frames,
            flattening.step().flattening.frames,
            step_move(flattening),
        ),
{
    reveal(Flattening::flatten_placed_item);
    let top = flattening.top();
    let last = flattening.frames.len() - 1;
    assert(frame_ok_at(flattening.frames, last));
    assert(top.list.len() == top.list@.len());
    let next = flattening.with_cursor(past(top.list@, top.cursor));
    let after = flattening.step().flattening.frames;
    assert(next.frames.drop_last() =~= flattening.frames.drop_last());
    if !(top.kind is ClosingStackingContext) && !at_end_of_frame(top.list@, top.cursor as int) {
        if after.len() > flattening.frames.len() {
            assert(after.drop_last() =~= next.frames);
        }
    }
}

/// Ending a stacking context closes its frame.
pub proof fn law_end_stacking_context_moves(flattening: Flattening, node_is_identity: bool)
    requires
        flattening.wf(),
        flattening.frames.len() > 0,
        flattening.top().kind is ClosingStackingContext,
        flattening.end_stacking_context(node_is_identity).result is Ok,
    ensures
        frames_move(
            flattening.frames,
            flattening.end_stacking_context(node_is_identity).flattening.frames,
            FrameMove::Close,
        ),
{
    let last = flattening.frames.len() - 1;
    assert(frame_ok_at(flattening.frames, last));
    assert(frame_ok_at(flattening.frames, 0));
}

/// Whether `b` is the stacking context `a` at a later time. Its properties are
/// the same. What was collected in it, as the root of a 3D hierarchy, is still
/// there, and so are the reasons for a surface of its own. What it drew is still
/// there too, unless it is preserve-3d, where flat children may have been put
/// into a picture.
pub open spec fn continues(a: Context, b: Context) -> bool {
    &&& b == Context {
        primitives: b.primitives,
        blit_reason: b.blit_reason,
        context_3d: b.context_3d,
        ..a
    }
    &&& b.blit_reason == a.blit_reason.union(b.blit_reason)
    &&& a.is_3d() || a.primitives.is_prefix_of(b.primitives)
    &&& match (a.context_3d, b.context_3d) {
        (Picture3DContext::Out, Picture3DContext::Out) => true,
        (
            Picture3DContext::In { root_data: None, ancestor_index: i },
            Picture3DContext::In { root_data: None, ancestor_index: j },
        ) => i == j,
        (
            Picture3DContext::In { root_data: Some(before), ancestor_index: i },
            Picture3DContext::In { root_data: Some(after), ancestor_index: j },
        ) => i == j && before.is_prefix_of(after),
        _ => false,
    }
}

proof fn lemma_continues_trans(a: Context, b: Context, c: Context)
    requires
        continues(a, b),
        continues(b, c),
    ensures
        continues(a, c),
{
    if !a.is_3d() {
        lemma_prefix_trans(a.primitives, b.primitives, c.primitives);
    }
    if let Picture3DContext::In { root_data: Some(x), .. } = a.context_3d {
        if let Picture3DContext::In { root_data: Some(y), .. } = b.context_3d {
            if let Picture3DContext::In { root_data: Some(z), .. } = c.context_3d {
                lemma_prefix_trans(x, y, z);
            }
        }
    }
}

proof fn lemma_continues_refl(a: Context)
    ensures
        continues(a, a),
{
    assert(a.primitives.is_prefix_of(a.primitives));
    if let Picture3DContext::In { root_data: Some(x), .. } = a.context_3d {
        assert(x.is_prefix_of(x));
    }
}

/// Whether the lowest `count` stacking contexts of a stack are those of another
/// at a later time.
pub open spec fn stack_continues(a: Seq<Context>, b: Seq<Context>, count: int) -> bool {
    &&& count <= a.len()
    &&& count <= b.len()
    &&& forall|i: int| 0 <= i < count ==> continues(#[trigger] a[i], b[i])
}

proof fn lemma_stack_refl(a: Seq<Context>)
    ensures
        stack_continues(a, a, a.len() as int),
{
    assert forall|i: int| 0 <= i < a.len() implies continues(#[trigger] a[i], a[i]) by {
        lemma_continues_refl(a[i]);
    }
}

proof fn lemma_stack_trans(a: Seq<Context>, b: Seq<Context>, c: Seq<Context>, count: int)
    requires
        stack_continues(a, b, count),
        stack_continues(b, c, count),
    ensures
        stack_continues(a, c, count),
{
    assert forall|i: int| 0 <= i < count implies continues(#[trigger] a[i], c[i]) by {
        assert(continues(b[i], c[i]));
        lemma_continues_trans(a[i], b[i], c[i]);
    }
}

/// Where one stacking context is replaced by itself at a later time, the stack
/// continues.
proof fn lemma_stack_update(a: Seq<Context>, b: Seq<Context>, place: int)
    requires
        0 <= place < a.len(),
        b == a.update(place, b[place]),
        continues(a[place], b[place]),
    ensures
        stack_continues(a, b, a.len() as int),
{
    assert forall|i: int| 0 <= i < a.len() implies continues(#[trigger] a[i], b[i]) by {
        if i != place {
            lemma_continues_refl(a[i]);
        }
    }
}

/// Whether at most the topmost stacking context changes, and that by one more
/// instance that it draws.
pub open spec fn at_most_draws(a: Seq<Context>, b: Seq<Context>) -> bool {
    ||| b == a
    ||| a.len() > 0 && b == a.drop_last().push(
        Context {
            primitives: a.last().primitives.push(b.last().primitives.last()),
            ..a.last()
        },
    )
}

proof fn lemma_draws_continue(a: Seq<Context>, b: Seq<Context>)
    requires
        at_most_draws(a, b),
    ensures
        a.len() == b.len(),
        stack_continues(a, b, a.len() as int),
{
    if b == a {
        lemma_stack_refl(a);
    } else {
        let last = a.len() - 1;
        lemma_continues_refl(a[last]);
        assert(b[last] == b.last());
        assert(a.last().primitives.is_prefix_of(b.last().primitives));
        assert(b =~= a.update(last, b[last]));
        lemma_stack_update(a, b, last);
    }
}

proof fn lemma_add_to_3d_root_continues(state: FlattenerState, instance: PrimitiveInstance)
    ensures
        ({
            let after = state.add_primitive_instance_to_3d_root(instance);
            &&& after.sc_stack.len() == state.sc_stack.len()
            &&& stack_continues(state.sc_stack, after.sc_stack, state.sc_stack.len() as int)
        }),
{
    let place = root_3d_place(state.sc_stack);
    lemma_stack_refl(state.sc_stack);
    if 0 <= place < state.sc_stack.len() {
        let sc = state.sc_stack[place];
        let after = state.add_primitive_instance_to_3d_root(instance);
        lemma_continues_refl(sc);
        if let Picture3DContext::In { root_data: Some(prims), .. } = sc.context_3d {
            assert(prims.is_prefix_of(prims.push(instance)));
        }
        lemma_stack_update(state.sc_stack, after.sc_stack, place);
    }
}

proof fn lemma_cut_flat_items_continues(state: FlattenerState)
    ensures
        ({
            let after = state.cut_flat_items();
            &&& after.sc_stack.len() == state.sc_stack.len()
            &&& stack_continues(state.sc_stack, after.sc_stack, state.sc_stack.len() as int)
        }),
{
    lemma_stack_refl(state.sc_stack);
    if state.sc_stack.len() > 0 && state.sc_stack.last().has_flat_items() {
        let top = state.sc_stack.last();
        let last = state.sc_stack.len() - 1;
        let emptied = state.with_top(Context { primitives: Seq::empty(), ..top });
        let added = emptied.add_picture(
            top.flat_items_picture(),
            top.is_backface_visible,
            PictureCompositeKey::Identity,
        );
        lemma_continues_refl(top);
        assert(emptied.sc_stack =~= state.sc_stack.update(last, emptied.sc_stack[last]));
        lemma_stack_update(state.sc_stack, emptied.sc_stack, last);
        lemma_add_to_3d_root_continues(
            added,
            state.added_picture(top.clip_chain_id, top.spatial_node_index),
        );
        lemma_stack_trans(
            state.sc_stack,
            emptied.sc_stack,
            state.cut_flat_items().sc_stack,
            state.sc_stack.len() as int,
        );
    }
}

/// A stacking context that ends leaves those below it in place.
pub proof fn law_pop_leaves_below(state: FlattenerState, node_is_identity: bool)
    requires
        state.sc_stack.len() > 0,
    ensures
        ({
            let after = state.pop_stacking_context(node_is_identity);
            &&& after.sc_stack.len() == state.sc_stack.len() - 1
            &&& stack_continues(state.sc_stack, after.sc_stack, state.sc_stack.len() - 1)
            &&& after.pipeline_clip_chain_stack == state.pipeline_clip_chain_stack
        }),
{
    let sc = state.sc_stack.last();
    let count = state.sc_stack.len() - 1;
    let below = FlattenerState { sc_stack: state.sc_stack.drop_last(), ..state };
    let after = state.pop_stacking_context(node_is_identity);
    let stack = below.sc_stack;
    lemma_stack_refl(stack);
    if state.top_is_redundant(node_is_identity) {
        let parent = stack.last();
        lemma_continues_refl(parent);
        assert(parent.primitives.is_prefix_of(parent.primitives + sc.primitives));
        assert(after.sc_stack =~= stack.update(count - 1, after.sc_stack[count - 1]));
        lemma_stack_update(stack, after.sc_stack, count - 1);
    } else {
        let parent_is_empty = stack.len() == 0 || stack.last().primitives.len() == 0;
        let cached = if sc.create_tile_cache {
            below.setup_picture_caching(sc.primitives)
        } else {
            below
        };
        let prims = if sc.create_tile_cache {
            below.cached_primitives(sc.primitives)
        } else {
            sc.primitives
        };
        let cached_sc = Context { primitives: prims, ..sc };
        lemma_context_pictures_keep(cached, cached_sc, parent_is_empty);
        let chain = cached.context_pictures(cached_sc, parent_is_empty);
        let instance = PrimitiveInstance {
            clip_chain_id: sc.clip_chain_id,
            ..chain.outer.instance
        };
        if stack.len() > 0 {
            let parent = stack.last();
            if parent.is_3d() {
                lemma_add_to_3d_root_continues(chain.state, instance);
            } else {
                lemma_continues_refl(parent);
                assert(parent.primitives.is_prefix_of(parent.primitives.push(instance)));
                assert(after.sc_stack =~= stack.update(count - 1, after.sc_stack[count - 1]));
                lemma_stack_update(stack, after.sc_stack, count - 1);
            }
        }
    }
    assert forall|i: int| 0 <= i < count implies continues(
        #[trigger] state.sc_stack[i],
        after.sc_stack[i],
    ) by {
        assert(stack[i] == state.sc_stack[i]);
        assert(continues(stack[i], after.sc_stack[i]));
    }
}

proof fn lemma_draw_continues(state: FlattenerState, instance: PrimitiveInstance)
    requires
        state.sc_stack.len() > 0,
    ensures
        at_most_draws(state.sc_stack, state.add_primitive_to_draw_list(instance).sc_stack),
{
    let after = state.add_primitive_to_draw_list(instance).sc_stack;
    assert(after.last().primitives.last() == instance);
}

proof fn lemma_draw_pending_continues<'a>(
    state: FlattenerState<'a>,
    items: Seq<ShadowItem<'a>>,
    offset: LayoutVector2D,
)
    requires
        state.sc_stack.len() > 0,
    ensures
        ({
            let after = state.draw_pending(items, offset);
            &&& after.sc_stack.len() == state.sc_stack.len()
            &&& stack_continues(state.sc_stack, after.sc_stack, state.sc_stack.len() as int)
            &&& after.pipeline_clip_chain_stack == state.pipeline_clip_chain_stack
        }),
    decreases items.len(),
{
    lemma_stack_refl(state.sc_stack);
    if items.len() > 0 {
        let rest = items.drop_first();
        let next = match items[0] {
            ShadowItem::Shadow(pending) => state.draw_shadow(pending, rest, offset),
            item => state.add_shadow_prim_to_draw_list(item.parts()->0, offset),
        };
        match items[0] {
            ShadowItem::Shadow(pending) => {
                lemma_add_shadow_prims_keep(state, pending.shadow, rest, offset);
                let made = state.add_shadow_prims(pending.shadow, rest, offset);
                let prims = state.added_shadow_prims(pending.shadow, rest, offset);
                if prims.len() > 0 {
                    lemma_draw_continues(
                        made.add_picture(
                            made.shadow_picture(pending, prims),
                            true,
                            PictureCompositeKey::Of(Some(shadow_composite_mode(pending.shadow))),
                        ),
                        made.added_picture(
                            pending.clip_and_scroll.clip_chain_id,
                            pending.clip_and_scroll.spatial_node_index,
                        ),
                    );
                }
            },
            item => {
                lemma_draw_prim_continues(
                    state,
                    item.parts()->0.info,
                    item.parts()->0.clip_and_scroll.clip_chain_id,
                    item.parts()->0.clip_and_scroll,
                    item.parts()->0.key,
                    offset,
                );
            },
        }
        lemma_draws_continue(state.sc_stack, next.sc_stack);
        lemma_draw_pending_continues(next, rest, offset);
        lemma_stack_trans(
            state.sc_stack,
            next.sc_stack,
            next.draw_pending(rest, offset).sc_stack,
            state.sc_stack.len() as int,
        );
    }
}

proof fn lemma_draw_prim_continues<'a>(
    state: FlattenerState<'a>,
    info: LayoutPrimitiveInfo,
    clip_chain_id: ClipChainId,
    clip_and_scroll: ScrollNodeAndClipChain,
    prim: Primitive<'a>,
    offset: LayoutVector2D,
)
    requires
        state.sc_stack.len() > 0,
    ensures
        at_most_draws(
            state.sc_stack,
            state.add_prim_to_draw_list(
                info,
                clip_chain_id,
                clip_and_scroll,
                prim,
                offset,
            ).sc_stack,
        ),
{
    let made = state.create_primitive(info, prim, offset).add_primitive_to_hit_testing_list(
        info,
        clip_and_scroll,
    );
    lemma_draw_continues(
        made,
        state.created_primitive(info, clip_chain_id, clip_and_scroll.spatial_node_index),
    );
}

/// A primitive is at most drawn into the topmost stacking context.
pub proof fn law_primitive_at_most_draws<'a>(
    state: FlattenerState<'a>,
    clip_and_scroll: ScrollNodeAndClipChain,
    info: LayoutPrimitiveInfo,
    clip_items: Seq<(LayoutPoint, ClipItemKey)>,
    prim: Primitive<'a>,
    visible: bool,
    pending: ShadowItem<'a>,
    offset: LayoutVector2D,
)
    requires
        state.sc_stack.len() > 0,
    ensures
        ({
            let after = state.add_nonshadowable_primitive(
                clip_and_scroll,
                info,
                clip_items,
                prim,
                visible,
                offset,
            );
            &&& at_most_draws(state.sc_stack, after.sc_stack)
            &&& after.pipeline_clip_chain_stack == state.pipeline_clip_chain_stack
        }),
        ({
            let after = state.add_primitive(
                clip_and_scroll,
                info,
                clip_items,
                prim,
                visible,
                pending,
                offset,
            );
            &&& at_most_draws(state.sc_stack, after.sc_stack)
            &&& after.pipeline_clip_chain_stack == state.pipeline_clip_chain_stack
        }),
{
    let spatial = clip_and_scroll.spatial_node_index;
    let parent = clip_and_scroll.clip_chain_id;
    let built = state.build_clip_chain(clip_items, spatial, parent);
    lemma_build_clip_chain_keeps(state, clip_items, spatial, parent);
    lemma_draw_prim_continues(
        built,
        info,
        state.built_clip_chain(clip_items.len(), parent),
        clip_and_scroll,
        prim,
        offset,
    );
}

/// How many of the lowest elements two stacks have both.
pub open spec fn common(a: nat, b: nat) -> int {
    if a < b {
        a as int
    } else {
        b as int
    }
}

/// Whether the stacking contexts and the root clip chains that are on both
/// stacks are the same, at a later time.
pub open spec fn below_stays(a: FlattenerState, b: FlattenerState) -> bool {
    let chains = common(a.pipeline_clip_chain_stack.len(), b.pipeline_clip_chain_stack.len());
    &&& stack_continues(a.sc_stack, b.sc_stack, common(a.sc_stack.len(), b.sc_stack.len()))
    &&& a.pipeline_clip_chain_stack.take(chains) == b.pipeline_clip_chain_stack.take(chains)
}

proof fn lemma_draws_below_stays(a: FlattenerState, b: FlattenerState)
    requires
        at_most_draws(a.sc_stack, b.sc_stack),
        a.pipeline_clip_chain_stack == b.pipeline_clip_chain_stack,
    ensures
        below_stays(a, b),
{
    lemma_draws_continue(a.sc_stack, b.sc_stack);
}

proof fn lemma_drawn_item_below<'a>(
    flattening: Flattening<'a>,
    item: &'a DisplayItem,
    cs: ScrollNodeAndClipChain,
)
    requires
        flattening.state.sc_stack.len() > 0,
        item.item is Image || item.item is YuvImage || item.item is Text || item.item is Rectangle
            || item.item is ClearRectangle || item.item is Line,
    ensures
        below_stays(
            flattening.state,
            flattening.flatten_placed_item(item, cs).flattening.state,
        ),
{
    reveal(Flattening::flatten_placed_item);
    lemma_draws_below_stays(
        flattening.state,
        flattening.flatten_placed_item(item, cs).flattening.state,
    );
}

proof fn lemma_gradient_below<'a>(
    flattening: Flattening<'a>,
    item: &'a DisplayItem,
    cs: ScrollNodeAndClipChain,
)
    requires
        flattening.state.sc_stack.len() > 0,
        item.item is Gradient || item.item is RadialGradient || item.item is Border
            || item.item is BoxShadow,
    ensures
        below_stays(
            flattening.state,
            flattening.flatten_placed_item(item, cs).flattening.state,
        ),
{
    reveal(Flattening::flatten_placed_item);
    lemma_draws_below_stays(
        flattening.state,
        flattening.flatten_placed_item(item, cs).flattening.state,
    );
}

proof fn lemma_structural_item_below<'a>(
    flattening: Flattening<'a>,
    item: &'a DisplayItem,
    cs: ScrollNodeAndClipChain,
)
    requires
        flattening.state.sc_stack.len() > 0,
        !(item.item is Image || item.item is YuvImage || item.item is Text || item.item
            is Rectangle || item.item is ClearRectangle || item.item is Line),
        !(item.item is Gradient || item.item is RadialGradient || item.item is Border || item.item
            is BoxShadow),
    ensures
        below_stays(
            flattening.state,
            flattening.flatten_placed_item(item, cs).flattening.state,
        ),
{
    reveal(Flattening::flatten_placed_item);
    let state = flattening.state;
    let offset = flattening.top().offset;
    let after = flattening.flatten_placed_item(item, cs).flattening.state;
    lemma_stack_refl(state.sc_stack);
    match item.item {
        SpecificDisplayItem::PushStackingContext { .. } => {
            lemma_cut_flat_items_continues(state);
            let cut = state.cut_flat_items().sc_stack;
            assert forall|i: int| 0 <= i < state.sc_stack.len() implies continues(
                #[trigger] state.sc_stack[i],
                after.sc_stack[i],
            ) by {
                assert(continues(state.sc_stack[i], cut[i]));
            }
        },
        SpecificDisplayItem::PopAllShadows => {
            lemma_draw_pending_continues(
                FlattenerState { pending_shadow_items: Seq::empty(), ..state },
                state.pending_shadow_items,
                offset,
            );
        },
        SpecificDisplayItem::Clip { id, image_mask, complex_clips } => {
            lemma_add_clip_keeps(
                state,
                id,
                item.space_and_clip,
                ClipRegion::create_for_clip_node(
                    item.clip_rect,
                    &complex_clips,
                    image_mask,
                    offset,
                ),
            );
        },
        SpecificDisplayItem::ScrollFrame { clip_id, image_mask, complex_clips, .. } => {
            lemma_add_clip_keeps(
                state,
                clip_id,
                item.space_and_clip,
                ClipRegion::create_for_clip_node(
                    item.clip_rect,
                    &complex_clips,
                    image_mask,
                    offset,
                ),
            );
        },
        SpecificDisplayItem::Iframe { pipeline_id } => {
            lemma_add_clip_keeps(
                state,
                ClipId::root(pipeline_id),
                item.space_and_clip,
                ClipRegion::create_for_clip_node_with_local_clip(item.clip_rect, offset),
            );
            let chains = state.pipeline_clip_chain_stack.len() as int;
            assert(after.pipeline_clip_chain_stack.take(chains)
                =~= state.pipeline_clip_chain_stack.take(chains));
        },
        SpecificDisplayItem::ClipChain { id, parent, clip_ids } => {
            let parent_clip_chain_id = match parent {
                Some(parent_id) => state.mapping.clips[ClipId::ClipChain(parent_id)].id,
                None => state.pipeline_clip_chain_stack.last(),
            };
            lemma_link_clips_keeps(state, clip_ids@, parent_clip_chain_id);
        },
        _ => {},
    }
}

/// A step leaves in place the stacking contexts and the root clip chains that
/// are there before and after it.
pub proof fn law_step_below_stays(flattening: Flattening)
    requires
        flattening.wf(),
        flattening.frames.len() > 0,
    ensures
        below_stays(flattening.state, flattening.step().flattening.state),
{
    let state = flattening.state;
    let top = flattening.top();
    let next = flattening.with_cursor(past(top.list@, top.cursor));
    let after = flattening.step().flattening.state;
    lemma_contexts_open(flattening.frames);
    lemma_stack_refl(state.sc_stack);
    if !(top.kind is ClosingStackingContext) {
        if at_end_of_frame(top.list@, top.cursor as int) {
            law_pop_leaves_below(state, false);
            let chains = after.pipeline_clip_chain_stack.len() as int;
            assert(after.pipeline_clip_chain_stack.take(chains)
                =~= state.pipeline_clip_chain_stack.take(chains));
        } else {
            let item = &top.list@[top.cursor as int];
            if let Ok(cs) = item_clip_and_scroll(state, *item, next.top().apply_pipeline_clip) {
                if item.item is Image || item.item is YuvImage || item.item is Text || item.item
                    is Rectangle || item.item is ClearRectangle || item.item is Line {
                    lemma_drawn_item_below(next, item, cs);
                } else if item.item is Gradient || item.item is RadialGradient || item.item
                    is Border || item.item is BoxShadow {
                    lemma_gradient_below(next, item, cs);
                } else {
                    lemma_structural_item_below(next, item, cs);
                }
            }
        }
    }
}

/// A primitive that the embedder adds. `pending` is what waits for active
/// shadows; there is none for a primitive that casts no shadow.
pub struct Addition<'a> {
    pub clip_and_scroll: ScrollNodeAndClipChain,
    pub info: LayoutPrimitiveInfo,
    pub clip_items: Seq<(LayoutPoint, ClipItemKey)>,
    pub prim: Primitive<'a>,
    pub visible: bool,
    pub pending: Option<ShadowItem<'a>>,
    pub offset: LayoutVector2D,
}

/// What is done next in a run.
pub enum Turn<'a> {
    /// A step.
    Step,
    /// The end of a stacking context, with the answer whether its positioning
    /// node leaves everything where it is.
    End(bool),
    /// A primitive that the embedder adds.
    Add(Addition<'a>),
    /// How a picture is drawn after the embedder tried to collapse it.
    Optimized(PictureIndex, Option<PictureCompositeMode>),
}

/// The flattening after a turn.
#[verifier::opaque]
pub open spec fn take_turn<'a>(flattening: Flattening<'a>, turn: Turn<'a>) -> Flattening<'a> {
    match turn {
        Turn::Step => flattening.step().flattening,
        Turn::End(node_is_identity) => flattening.end_stacking_context(node_is_identity).flattening,
        Turn::Add(a) => flattening.with_state(
            match a.pending {
                Some(pending) => flattening.state.add_primitive(
                    a.clip_and_scroll,
                    a.info,
                    a.clip_items,
                    a.prim,
                    a.visible,
                    pending,
                    a.offset,
                ),
                None => flattening.state.add_nonshadowable_primitive(
                    a.clip_and_scroll,
                    a.info,
                    a.clip_items,
                    a.prim,
                    a.visible,
                    a.offset,
                ),
            },
        ),
        Turn::Optimized(pic_index, composite_mode) => flattening.with_state(
            flattening.state.picture_optimized(pic_index, composite_mode),
        ),
    }
}

/// Whether a turn can be taken: no error comes of it, what is added is placed,
/// and all positions fit indices.
#[verifier::opaque]
pub open spec fn turn_ok<'a>(flattening: Flattening<'a>, turn: Turn<'a>) -> bool {
    &&& flattening.frames.len() > 0
    &&& take_turn(flattening, turn).state.fits()
    &&& match turn {
        Turn::Step => flattening.step().result is Ok,
        Turn::End(node_is_identity) => {
            &&& flattening.top().kind is ClosingStackingContext
            &&& flattening.end_stacking_context(node_is_identity).result is Ok
        },
        Turn::Add(a) => {
            &&& request_placed(flattening, a.clip_and_scroll)
            &&& a.pending matches Some(pending) ==> pending_place(pending)
                == a.clip_and_scroll.spatial_node_index
        },
        Turn::Optimized(pic_index, _) => pic_index.index
            < flattening.state.prim_store.pictures.len(),
    }
}

/// The flattening after the first `k` turns.
pub open spec fn at<'a>(start: Flattening<'a>, turns: Seq<Turn<'a>>, k: int) -> Flattening<'a>
    decreases k,
{
    if k <= 0 {
        start
    } else {
        take_turn(at(start, turns, k - 1), turns[k - 1])
    }
}

/// Whether the turn at a place of a run can be taken.
pub open spec fn turn_ok_at<'a>(start: Flattening<'a>, turns: Seq<Turn<'a>>, k: int) -> bool {
    turn_ok(at(start, turns, k), turns[k])
}

/// Whether all turns of a run can be taken, from a flattening that is sound.
pub open spec fn run_ok<'a>(start: Flattening<'a>, turns: Seq<Turn<'a>>) -> bool {
    &&& start.wf()
    &&& start.state.fits()
    &&& forall|k: int| 0 <= k < turns.len() ==> #[trigger] turn_ok_at(start, turns, k)
}

/// A run is sound throughout.
pub proof fn law_run_wf<'a>(start: Flattening<'a>, turns: Seq<Turn<'a>>, k: int)
    requires
        run_ok(start, turns),
        0 <= k <= turns.len(),
    ensures
        at(start, turns, k).wf(),
        at(start, turns, k).state.fits(),
    decreases k,
{
    if k > 0 {
        reveal(take_turn);
        reveal(turn_ok);
        law_run_wf(start, turns, k - 1);
        assert(turn_ok_at(start, turns, k - 1));
        let before = at(start, turns, k - 1);
        match turns[k - 1] {
            Turn::Step => {
                law_step_wf(before);
            },
            Turn::End(node_is_identity) => {
                law_end_stacking_context_wf(before, node_is_identity);
            },
            Turn::Add(a) => {
                match a.pending {
                    Some(pending) => {
                        law_embedder_adds_primitive(
                            before,
                            a.clip_and_scroll,
                            a.info,
                            a.clip_items,
                            a.prim,
                            a.visible,
                            pending,
                            a.offset,
                        );
                    },
                    None => {
                        law_embedder_adds_nonshadowable_primitive(
                            before,
                            a.clip_and_scroll,
                            a.info,
                            a.clip_items,
                            a.prim,
                            a.visible,
                            a.offset,
                        );
                    },
                }
            },
            Turn::Optimized(pic_index, composite_mode) => {
                law_picture_optimized_wf(before, pic_index, composite_mode);
            },
        }
    }
}

/// What a turn does to the frames.
#[verifier::opaque]
pub open spec fn turn_move<'a>(flattening: Flattening<'a>, turn: Turn<'a>) -> FrameMove {
    match turn {
        Turn::Step => step_move(flattening),
        Turn::End(_) => FrameMove::Close,
        Turn::Add(_) => FrameMove::Stay,
        Turn::Optimized(..) => FrameMove::Stay,
    }
}

proof fn lemma_turn<'a>(flattening: Flattening<'a>, turn: Turn<'a>)
    requires
        flattening.wf(),
        turn_ok(flattening, turn),
    ensures
        flattening.frames.len() > 0,
        take_turn(flattening, turn).frames.len() > 0 ==> frames_move(
            flattening.frames,
            take_turn(flattening, turn).frames,
            turn_move(flattening, turn),
        ),
        below_stays(flattening.state, take_turn(flattening, turn).state),
{
    reveal(take_turn);
    reveal(turn_ok);
    reveal(turn_move);
    let state = flattening.state;
    match turn {
        Turn::Step => {
            if flattening.step().flattening.frames.len() > 0 {
                law_step_moves(flattening);
            }
            law_step_below_stays(flattening);
        },
        Turn::End(node_is_identity) => {
            lemma_contexts_open(flattening.frames);
            law_end_stacking_context_moves(flattening, node_is_identity);
            law_pop_leaves_below(state, node_is_identity);
        },
        Turn::Add(a) => {
            let pending = match a.pending {
                Some(pending) => pending,
                None => arbitrary(),
            };
            law_primitive_at_most_draws(
                state,
                a.clip_and_scroll,
                a.info,
                a.clip_items,
                a.prim,
                a.visible,
                pending,
                a.offset,
            );
            lemma_draws_below_stays(state, take_turn(flattening, turn).state);
        },
        Turn::Optimized(..) => {
            lemma_draws_below_stays(state, take_turn(flattening, turn).state);
        },
    }
}

/// Fewer frames hold no more stacking contexts and iframes.
proof fn lemma_fewer_open(frames: Seq<Frame>, base: int)
    requires
        0 <= base <= frames.len(),
    ensures
        contexts_open(frames.take(base)) <= contexts_open(frames),
        iframes_open(frames.take(base)) <= iframes_open(frames),
    decreases frames.len(),
{
    if base < frames.len() {
        lemma_fewer_open(frames.drop_last(), base);
        assert(frames.drop_last().take(base) =~= frames.take(base));
    } else {
        assert(frames.take(base) =~= frames);
    }
}

/// Whether a frame is open from turn `i` to turn `j` of a run.
pub open spec fn open_between<'a>(
    start: Flattening<'a>,
    turns: Seq<Turn<'a>>,
    base: int,
    i: int,
    j: int,
) -> bool {
    forall|k: int| i <= k <= j ==> (#[trigger] at(start, turns, k)).frames.len() > base
}

/// While a frame is open, the frames below it stay as they are, and so does the
/// display list that it is in; where it will end stays the same, and that list
/// is passed forward only. The stacking contexts and the root clip chains that
/// were there when it was opened stay in place.
pub proof fn law_open_frame_stays<'a>(
    start: Flattening<'a>,
    turns: Seq<Turn<'a>>,
    base: int,
    i: int,
    j: int,
)
    requires
        run_ok(start, turns),
        0 <= base,
        0 <= i <= j <= turns.len(),
        open_between(start, turns, base, i, j),
    ensures
        ({
            let a = at(start, turns, i);
            let b = at(start, turns, j);
            let contexts = contexts_open(a.frames.take(base)) as int;
            let chains = iframes_open(a.frames.take(base)) as int + 1;
            &&& b.frames.take(base) == a.frames.take(base)
            &&& b.frames[base].list == a.frames[base].list
            &&& b.frames[base].kind is Iframe == a.frames[base].kind is Iframe
            &&& frame_end(b.frames, base) == frame_end(a.frames, base)
            &&& position(a.frames, base) <= position(b.frames, base)
            &&& stack_continues(a.state.sc_stack, b.state.sc_stack, contexts)
            &&& chains <= a.state.pipeline_clip_chain_stack.len()
            &&& chains <= b.state.pipeline_clip_chain_stack.len()
            &&& a.state.pipeline_clip_chain_stack.take(chains)
                == b.state.pipeline_clip_chain_stack.take(chains)
        }),
    decreases j - i,
{
    let a = at(start, turns, i);
    law_run_wf(start, turns, i);
    lemma_fewer_open(a.frames, base);
    let contexts = contexts_open(a.frames.take(base)) as int;
    let chains = iframes_open(a.frames.take(base)) as int + 1;
    assert(a.frames.len() > base);
    if i == j {
        lemma_stack_refl(a.state.sc_stack);
    } else {
        let c = at(start, turns, j - 1);
        let b = at(start, turns, j);
        law_open_frame_stays(start, turns, base, i, j - 1);
        law_run_wf(start, turns, j - 1);
        law_run_wf(start, turns, j);
        assert(turn_ok_at(start, turns, j - 1));
        assert(c.frames.len() > base);
        assert(b.frames.len() > base);
        lemma_turn(c, turns[j - 1]);
        lemma_frame_stays(c.frames, b.frames, turn_move(c, turns[j - 1]), base);
        lemma_fewer_open(b.frames, base);
        assert forall|k: int| 0 <= k < contexts implies continues(
            #[trigger] a.state.sc_stack[k],
            b.state.sc_stack[k],
        ) by {
            assert(continues(a.state.sc_stack[k], c.state.sc_stack[k]));
            assert(continues(c.state.sc_stack[k], b.state.sc_stack[k]));
            lemma_continues_trans(
                a.state.sc_stack[k],
                c.state.sc_stack[k],
                b.state.sc_stack[k],
            );
        }
        let cc = c.state.pipeline_clip_chain_stack;
        let bc = b.state.pipeline_clip_chain_stack;
        let both = common(cc.len(), bc.len());
        assert forall|k: int| 0 <= k < chains implies cc.take(chains)[k] == bc.take(chains)[k] by {
            assert(cc.take(both)[k] == bc.take(both)[k]);
        }
        assert(cc.take(chains) =~= bc.take(chains));
    }
}

/// From the step that opens a frame to the turn that closes it, the stacking
/// contexts that were there before stay in place, and the root clip chains too;
/// at the end there are no others. The frame below is as it was, but for its
/// place in its display list: that is just after the item that matches the one
/// that opened the frame, or, after an iframe, just after the iframe.
pub proof fn law_frame_from_open_to_close<'a>(start: Flattening<'a>, turns: Seq<Turn<'a>>)
    requires
        run_ok(start, turns),
        turns.len() >= 2,
        turns[0] is Step,
        at(start, turns, 1).frames.len() == start.frames.len() + 1,
        open_between(start, turns, start.frames.len() as int, 1, turns.len() - 1),
        at(start, turns, turns.len() as int).frames.len() == start.frames.len(),
    ensures
        ({
            let end = at(start, turns, turns.len() as int);
            let top = start.top();
            let opener = top.list@[top.cursor as int];
            &&& top.cursor < top.list@.len()
            &&& opens(opener) || opener.item is Iframe
            &&& end.frames.drop_last() == start.frames.drop_last()
            &&& end.top() == Frame { cursor: end.top().cursor, ..top }
            &&& end.top().cursor == if opens(opener) {
                matching_end(top.list@, top.cursor as int)
            } else {
                top.cursor + 1
            }
            &&& end.state.sc_stack.len() == start.state.sc_stack.len()
            &&& end.state.pipeline_clip_chain_stack == start.state.pipeline_clip_chain_stack
        }),
        forall|k: int|
            0 <= k <= turns.len() ==> {
                let now = (#[trigger] at(start, turns, k)).state;
                &&& stack_continues(
                    start.state.sc_stack,
                    now.sc_stack,
                    start.state.sc_stack.len() as int,
                )
                &&& start.state.pipeline_clip_chain_stack.is_prefix_of(
                    now.pipeline_clip_chain_stack,
                )
            },
{
    let n = turns.len() as int;
    let base = start.frames.len() as int;
    let top = start.top();
    let list = top.list@;
    let first = at(start, turns, 1);
    let end = at(start, turns, n);
    assert(at(start, turns, 0) == start);
    assert(turn_ok_at(start, turns, 0));
    assert(first == take_turn(start, turns[0]));
    law_run_wf(start, turns, 1);
    lemma_turn(start, turns[0]);
    assert(frame_ok_at(start.frames, base - 1));
    assert(top.list.len() == list.len());
    // The frame is opened.
    let opened = with_top_frame(start.frames, Frame { cursor: past(list, top.cursor), ..top });
    assert(first.frames.take(base) =~= opened);
    lemma_replace_top_ok(start.frames, Frame { cursor: past(list, top.cursor), ..top });
    assert(opened.drop_last() =~= start.frames.drop_last());
    lemma_list_top(first.frames, base);
    assert(frame_ok_at(first.frames, base));
    // What was there before is there all along.
    assert forall|k: int| 0 <= k <= n implies {
        let now = (#[trigger] at(start, turns, k)).state;
        &&& stack_continues(
            start.state.sc_stack,
            now.sc_stack,
            start.state.sc_stack.len() as int,
        )
        &&& start.state.pipeline_clip_chain_stack.is_prefix_of(now.pipeline_clip_chain_stack)
    } by {
        lemma_opened_keeps(start, turns, k);
    }
    // The frame is closed.
    let last = at(start, turns, n - 1);
    assert(last.frames.len() > base);
    law_open_frame_stays(start, turns, base, 1, n - 1);
    law_run_wf(start, turns, n - 1);
    law_run_wf(start, turns, n);
    assert(turn_ok_at(start, turns, n - 1));
    assert(end == take_turn(last, turns[n - 1]));
    lemma_turn(last, turns[n - 1]);
    lemma_frame_closes(last.frames, end.frames, turn_move(last, turns[n - 1]));
    assert(last.frames.drop_last() =~= last.frames.take(base));
    let a = start.state.pipeline_clip_chain_stack;
    let b = end.state.pipeline_clip_chain_stack;
    assert(frame_ok_at(end.frames, base - 1));
    assert(last.frames.last() == last.frames[base]);
    lemma_replace_top_ok(start.frames, Frame { cursor: end.top().cursor, ..top });
    assert(end.frames.drop_last() =~= start.frames.drop_last());
    assert(end.frames =~= with_top_frame(
        start.frames,
        Frame { cursor: end.top().cursor, ..top },
    ));
    assert(a =~= b);
}

/// What was there when a frame was opened is there as long as it is open, and
/// after it is closed.
proof fn lemma_opened_keeps<'a>(start: Flattening<'a>, turns: Seq<Turn<'a>>, k: int)
    requires
        run_ok(start, turns),
        turns.len() >= 2,
        turns[0] is Step,
        at(start, turns, 1).frames.len() == start.frames.len() + 1,
        open_between(start, turns, start.frames.len() as int, 1, turns.len() - 1),
        at(start, turns, turns.len() as int).frames.len() == start.frames.len(),
        0 <= k <= turns.len(),
    ensures
        ({
            let now = at(start, turns, k).state;
            &&& stack_continues(
                start.state.sc_stack,
                now.sc_stack,
                start.state.sc_stack.len() as int,
            )
            &&& start.state.pipeline_clip_chain_stack.is_prefix_of(now.pipeline_clip_chain_stack)
        }),
{
    let n = turns.len() as int;
    let base = start.frames.len() as int;
    let top = start.top();
    let list = top.list@;
    let contexts = start.state.sc_stack.len() as int;
    let first = at(start, turns, 1);
    let chains = start.state.pipeline_clip_chain_stack;
    lemma_stack_refl(start.state.sc_stack);
    if k > 0 {
        assert(at(start, turns, 0) == start);
        assert(turn_ok_at(start, turns, 0));
        assert(first == take_turn(start, turns[0]));
        law_run_wf(start, turns, 1);
        lemma_turn(start, turns[0]);
        assert(frame_ok_at(start.frames, base - 1));
        assert(top.list.len() == list.len());
        let opened = with_top_frame(start.frames, Frame { cursor: past(list, top.cursor), ..top });
        assert(first.frames.take(base) =~= opened);
        lemma_replace_top_ok(start.frames, Frame { cursor: past(list, top.cursor), ..top });
        lemma_fewer_open(first.frames, base);
        let until = if k < n {
            k
        } else {
            n - 1
        };
        assert(open_between(start, turns, base, 1, until)) by {
            assert forall|i: int| 1 <= i <= until implies (#[trigger] at(
                start,
                turns,
                i,
            )).frames.len() > base by {}
        }
        law_open_frame_stays(start, turns, base, 1, until);
        let now = at(start, turns, until);
        lemma_stack_trans(
            start.state.sc_stack,
            first.state.sc_stack,
            now.state.sc_stack,
            contexts,
        );
        let m = chains.len() as int;
        let one = first.state.pipeline_clip_chain_stack;
        let then = now.state.pipeline_clip_chain_stack;
        assert forall|i: int| 0 <= i < m implies chains[i] == then.subrange(0, m)[i] by {
            assert(chains.take(m)[i] == one.take(m)[i]);
            assert(one.take(m)[i] == then.take(m)[i]);
        }
        assert(chains =~= then.subrange(0, m));
        if k == n {
            let end = at(start, turns, n);
            law_run_wf(start, turns, n - 1);
            law_run_wf(start, turns, n);
            assert(turn_ok_at(start, turns, n - 1));
            assert(now.frames.len() > base);
            lemma_turn(now, turns[n - 1]);
            lemma_frame_closes(now.frames, end.frames, turn_move(now, turns[n - 1]));
            assert(now.frames.drop_last() =~= opened);
            assert(frame_ok_at(end.frames, base - 1));
            lemma_replace_top_ok(opened, Frame { cursor: end.top().cursor, ..opened.last() });
            lemma_stack_trans(
                start.state.sc_stack,
                now.state.sc_stack,
                end.state.sc_stack,
                contexts,
            );
            let last = end.state.pipeline_clip_chain_stack;
            assert forall|i: int| 0 <= i < m implies chains[i] == last.subrange(0, m)[i] by {
                assert(then.subrange(0, m)[i] == chains[i]);
                assert(then.take(m)[i] == last.take(m)[i]);
            }
            assert(chains =~= last.subrange(0, m));
        }
    }
}

/// A frame that is closed is the topmost, and ends where it was to end. The
/// frame below goes on there, or where it was if it is in another display list.
proof fn lemma_frame_closes<'a>(
    before: Seq<Frame<'a>>,
    after: Seq<Frame<'a>>,
    frame_move: FrameMove,
)
    requires
        frames_ok(before),
        frames_move(before, after, frame_move),
        0 < after.len() < before.len(),
    ensures
        ({
            let base = before.len() - 1;
            &&& after.len() == base
            &&& after == with_top_frame(
                before.drop_last(),
                Frame { cursor: after.last().cursor, ..before.drop_last().last() },
            )
            &&& after.last().cursor == if before.last().kind is Iframe {
                before.drop_last().last().cursor as int
            } else {
                frame_end(before, base)
            }
        }),
{
    let base = before.len() - 1;
    reveal_with_fuel(scan_end, 3);
    assert(frame_ok_at(before, base));
    assert(before.last().list.len() == before.last().list@.len());
    lemma_list_top_is(before, base, base);
    assert(with_top_frame(before.drop_last(), before.drop_last().last()) =~= before.drop_last());
}

/// By how much more of the items from `from` on, before `to`, begin something
/// than end something.
pub open spec fn balance(list: Seq<DisplayItem>, from: int, to: int) -> int
    decreases to - from,
{
    if to <= from {
        0
    } else {
        balance(list, from, to - 1) + if list[to - 1].spec_is_pop() {
            -1int
        } else if opens(list[to - 1]) {
            1
        } else {
            0
        }
    }
}

proof fn lemma_balance_split(list: Seq<DisplayItem>, from: int, to: int)
    requires
        from < to,
    ensures
        balance(list, from, to) == balance(list, from, from + 1) + balance(list, from + 1, to),
    decreases to - from,
{
    if from + 1 < to {
        lemma_balance_split(list, from, to - 1);
    }
}

proof fn lemma_scan_end(list: Seq<DisplayItem>, cursor: int, depth: int)
    requires
        0 <= cursor <= list.len(),
        depth >= 0,
    ensures
        ({
            let end = scan_end(list, cursor, depth);
            &&& cursor <= end <= list.len()
            &&& forall|m: int|
                cursor <= m < end ==> depth + #[trigger] balance(list, cursor, m) >= 0
            &&& end == list.len() || depth + balance(list, cursor, end) < 0
        }),
    decreases list.len() - cursor,
{
    reveal_with_fuel(balance, 2);
    if cursor < list.len() {
        let next = depth + balance(list, cursor, cursor + 1);
        let end = scan_end(list, cursor, depth);
        if next >= 0 {
            lemma_scan_end(list, cursor + 1, next);
            assert forall|m: int| cursor <= m < end implies depth + #[trigger] balance(
                list,
                cursor,
                m,
            ) >= 0 by {
                if m > cursor {
                    lemma_balance_split(list, cursor, m);
                    assert(next + balance(list, cursor + 1, m) >= 0);
                }
            }
            lemma_balance_split(list, cursor, end);
        } else {
            assert(scan_end(list, cursor + 1, next) == cursor + 1);
        }
    }
}

/// The item that matches one that begins something is the first after it up to
/// which more is ended than is begun. Where there is no such item, the display
/// list ends it.
pub proof fn law_matching_end(list: Seq<DisplayItem>, cursor: int)
    requires
        0 <= cursor < list.len(),
    ensures
        ({
            let end = matching_end(list, cursor);
            &&& cursor < end <= list.len()
            &&& forall|m: int|
                cursor < m < end ==> #[trigger] balance(list, cursor + 1, m) >= 0
            &&& end == list.len() || balance(list, cursor + 1, end) == -1
            &&& balance(list, cursor + 1, end) < 0 ==> list[end - 1].spec_is_pop()
        }),
{
    lemma_scan_end(list, cursor + 1, 0);
    let end = matching_end(list, cursor);
    reveal_with_fuel(balance, 2);
    if cursor + 1 < end {
        assert(balance(list, cursor + 1, end - 1) >= 0);
    }
}

/// An empty stacking context that is skipped is passed up to just after the item
/// that matches its begin.
pub proof fn law_skipped_to_matching_end(list: &Vec<DisplayItem>, cursor: usize)
    requires
        cursor < list@.len(),
        list@[cursor as int].item is PushStackingContext,
        stacking_context_empty(list@, cursor + 1),
    ensures
        past(list@, past(list@, cursor)) == matching_end(list@, cursor as int),
{
    assert(list.len() == list@.len());
    reveal_with_fuel(scan_end, 3);
}

/// Whether the turn at a place of a run passes the item at `c` of the display
/// list of an open frame: it is a step in that list, and takes the item that
/// comes next there. The end of an empty stacking context is passed together
/// with its begin.
pub open spec fn passes_at<'a>(
    start: Flattening<'a>,
    turns: Seq<Turn<'a>>,
    base: int,
    k: int,
    c: int,
) -> bool {
    let before = at(start, turns, k);
    let list = before.frames[base].list@;
    let next = before.top().cursor;
    &&& 0 <= k < turns.len()
    &&& turns[k] is Step
    &&& position(before.frames, base) <= c < position(at(start, turns, k + 1).frames, base)
    &&& list_top(before.frames, base) == before.frames.len() - 1
    &&& before.top().list == before.frames[base].list
    &&& c == next || (c == next + 1 && list[next as int].item is PushStackingContext
        && list[c].item is PopStackingContext)
}

/// A turn that moves forward in the display list of an open frame is a step
/// there.
proof fn lemma_forward_is_step<'a>(flattening: Flattening<'a>, turn: Turn<'a>, base: int)
    requires
        flattening.wf(),
        turn_ok(flattening, turn),
        take_turn(flattening, turn).wf(),
        0 <= base < flattening.frames.len(),
        base < take_turn(flattening, turn).frames.len(),
        position(flattening.frames, base) < position(take_turn(flattening, turn).frames, base),
    ensures
        turn is Step,
{
    reveal(take_turn);
    reveal(turn_move);
    let frames = flattening.frames;
    let after = take_turn(flattening, turn).frames;
    lemma_turn(flattening, turn);
    lemma_frame_stays(frames, after, turn_move(flattening, turn), base);
    if let Turn::End(_) = turn {
        reveal(turn_ok);
        assert(false);
    }
}

/// While a frame is open, every item of its display list between two positions
/// is passed by some turn.
pub proof fn law_items_passed<'a>(
    start: Flattening<'a>,
    turns: Seq<Turn<'a>>,
    base: int,
    i: int,
    j: int,
    c: int,
)
    requires
        run_ok(start, turns),
        0 <= base,
        0 <= i <= j <= turns.len(),
        open_between(start, turns, base, i, j),
        position(at(start, turns, i).frames, base) <= c < position(
            at(start, turns, j).frames,
            base,
        ),
    ensures
        exists|k: int| i <= k < j && passes_at(start, turns, base, k, c),
    decreases j - i,
{
    let before = at(start, turns, j - 1);
    let after = at(start, turns, j);
    if i < j {
        assert(open_between(start, turns, base, i, j - 1)) by {
            assert forall|k: int| i <= k <= j - 1 implies (#[trigger] at(
                start,
                turns,
                k,
            )).frames.len() > base by {}
        }
        assert(before.frames.len() > base);
        assert(after.frames.len() > base);
        if c < position(before.frames, base) {
            law_items_passed(start, turns, base, i, j - 1, c);
            let k = choose|k: int| i <= k < j - 1 && passes_at(start, turns, base, k, c);
            assert(passes_at(start, turns, base, k, c));
        } else {
            law_run_wf(start, turns, j - 1);
            law_run_wf(start, turns, j);
            assert(turn_ok_at(start, turns, j - 1));
            lemma_turn(before, turns[j - 1]);
            lemma_forward_is_step(before, turns[j - 1], base);
            lemma_frame_stays(before.frames, after.frames, turn_move(before, turns[j - 1]), base);
            lemma_block_list(before.frames, base, before.frames.len() - 1);
            assert(passes_at(start, turns, base, j - 1, c));
        }
    }
}

/// While a frame is open, the items of its display list are passed in order, and
/// each of them once: a later turn passes later items.
pub proof fn law_items_passed_in_order<'a>(
    start: Flattening<'a>,
    turns: Seq<Turn<'a>>,
    base: int,
    k: int,
    l: int,
    c: int,
    d: int,
)
    requires
        run_ok(start, turns),
        0 <= base,
        passes_at(start, turns, base, k, c),
        passes_at(start, turns, base, l, d),
        k < l,
        open_between(start, turns, base, k, l),
    ensures
        c < d,
{
    assert(open_between(start, turns, base, k + 1, l)) by {
        assert forall|m: int| k + 1 <= m <= l implies (#[trigger] at(
            start,
            turns,
            m,
        )).frames.len() > base by {}
    }
    law_open_frame_stays(start, turns, base, k + 1, l);
}

/// Whether the turn at a place of a run passes the item at `c` of the display
/// list of the frame that is topmost at its start.
pub open spec fn passes_below<'a>(
    start: Flattening<'a>,
    turns: Seq<Turn<'a>>,
    k: int,
    c: int,
) -> bool {
    passes_at(start, turns, start.frames.len() - 1, k, c)
}

/// From the step that opens a frame to the turn that closes it, every item of the
/// display list below, from the one that opens the frame to the one that ends
/// it, is passed by exactly one turn.
pub proof fn law_frame_items_passed_once<'a>(
    start: Flattening<'a>,
    turns: Seq<Turn<'a>>,
    c: int,
)
    requires
        run_ok(start, turns),
        turns.len() >= 2,
        turns[0] is Step,
        at(start, turns, 1).frames.len() == start.frames.len() + 1,
        open_between(start, turns, start.frames.len() as int, 1, turns.len() - 1),
        at(start, turns, turns.len() as int).frames.len() == start.frames.len(),
        start.top().cursor <= c < at(start, turns, turns.len() as int).top().cursor,
    ensures
        exists|k: int| passes_below(start, turns, k, c),
        forall|k: int, l: int|
            passes_below(start, turns, k, c) && passes_below(start, turns, l, c) ==> k == l,
{
    let n = turns.len() as int;
    let base = start.frames.len() - 1;
    let end = at(start, turns, n);
    assert(at(start, turns, 0) == start);
    assert(turn_ok_at(start, turns, 0));
    lemma_turn(start, turns[0]);
    assert forall|k: int| 0 <= k <= n implies (#[trigger] at(start, turns, k)).frames.len()
        > base by {
        if 1 <= k <= n - 1 {
            assert(at(start, turns, k).frames.len() > start.frames.len());
        }
    }
    lemma_list_top_is(start.frames, base, base);
    lemma_list_top_is(end.frames, base, base);
    law_items_passed(start, turns, base, 0, n, c);
    let k = choose|k: int| 0 <= k < n && passes_at(start, turns, base, k, c);
    assert(passes_below(start, turns, k, c));
    assert forall|k: int, l: int|
        passes_below(start, turns, k, c) && passes_below(start, turns, l, c) implies k == l by {
        if k < l {
            law_items_passed_in_order(start, turns, base, k, l, c, c);
        } else if l < k {
            law_items_passed_in_order(start, turns, base, l, k, c, c);
        }
    }
}

/// An id that is mapped at some point of a run is mapped at every later one.
pub proof fn law_run_ids_stay<'a>(start: Flattening<'a>, turns: Seq<Turn<'a>>, i: int, j: int)
    requires
        run_ok(start, turns),
        0 <= i <= j <= turns.len(),
    ensures
        at(start, turns, i).state.ids_stay(at(start, turns, j).state),
    decreases j - i,
{
    if i < j {
        reveal(take_turn);
        reveal(turn_ok);
        law_run_ids_stay(start, turns, i, j - 1);
        law_run_wf(start, turns, j - 1);
        assert(turn_ok_at(start, turns, j - 1));
        let before = at(start, turns, j - 1);
        match turns[j - 1] {
            Turn::Step => {
                law_step_grows(before);
            },
            Turn::End(node_is_identity) => {
                law_end_stacking_context_grows(before, node_is_identity);
            },
            Turn::Add(a) => {
                lemma_build_clip_chain_keeps(
                    before.state,
                    a.clip_items,
                    a.clip_and_scroll.spatial_node_index,
                    a.clip_and_scroll.clip_chain_id,
                );
            },
            Turn::Optimized(..) => {},
        }
    }
}

/// When the frame of an iframe is closed, the root clip, the root reference
/// frame and the root scroll node of its pipeline are mapped.
pub proof fn law_closed_iframe_is_mapped<'a>(
    start: Flattening<'a>,
    turns: Seq<Turn<'a>>,
    pipeline_id: PipelineId,
)
    requires
        run_ok(start, turns),
        turns.len() >= 2,
        turns[0] is Step,
        at(start, turns, 1).frames.len() == start.frames.len() + 1,
        open_between(start, turns, start.frames.len() as int, 1, turns.len() - 1),
        at(start, turns, turns.len() as int).frames.len() == start.frames.len(),
        start.top().list@[start.top().cursor as int].item == (SpecificDisplayItem::Iframe {
            pipeline_id,
        }),
    ensures
        ({
            let mapping = at(start, turns, turns.len() as int).state.mapping;
            &&& mapping.clips.contains_key(ClipId::root(pipeline_id))
            &&& mapping.spatial.contains_key(SpatialId::root_reference_frame(pipeline_id))
            &&& mapping.spatial.contains_key(SpatialId::root_scroll_node(pipeline_id))
        }),
{
    let n = turns.len() as int;
    assert(at(start, turns, 0) == start);
    assert(turn_ok_at(start, turns, 0));
    law_frame_from_open_to_close(start, turns);
    assert(at(start, turns, 1) == take_turn(start, turns[0]));
    assert(at(start, turns, 1) == start.step().flattening && start.step().result is Ok) by {
        reveal(take_turn);
        reveal(turn_ok);
    }
    lemma_entered_iframe_is_mapped(start, pipeline_id);
    law_run_ids_stay(start, turns, 1, n);
}

/// The step that opens the frame of an iframe maps its root ids.
proof fn lemma_entered_iframe_is_mapped(start: Flattening, pipeline_id: PipelineId)
    requires
        start.wf(),
        start.frames.len() > 0,
        start.step().result is Ok,
        start.step().flattening.frames.len() == start.frames.len() + 1,
        start.top().cursor < start.top().list@.len(),
        start.top().list@[start.top().cursor as int].item == (SpecificDisplayItem::Iframe {
            pipeline_id,
        }),
    ensures
        ({
            let mapping = start.step().flattening.state.mapping;
            &&& mapping.clips.contains_key(ClipId::root(pipeline_id))
            &&& mapping.spatial.contains_key(SpatialId::root_reference_frame(pipeline_id))
            &&& mapping.spatial.contains_key(SpatialId::root_scroll_node(pipeline_id))
        }),
{
    reveal(Flattening::flatten_placed_item);
    let top = start.top();
    let last = start.frames.len() - 1;
    assert(frame_ok_at(start.frames, last));
}

} // verus!
