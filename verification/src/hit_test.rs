//! What can be hit, in the order in which it is drawn.
use vstd::prelude::*;

use crate::ids::ScrollNodeAndClipChain;
use crate::layout::LayoutRect;
use crate::primitives::{ItemTag, LayoutPrimitiveInfo};

verus! {

/// An area that can be hit.
#[derive(Debug)]
pub struct HitTestingItem {
    pub tag: ItemTag,
    pub rect: LayoutRect,
    pub clip_rect: LayoutRect,
    pub is_backface_visible: bool,
}

impl HitTestingItem {
    /// The area that a primitive covers.
    pub open spec fn spec_new(tag: ItemTag, info: LayoutPrimitiveInfo) -> HitTestingItem {
        HitTestingItem {
            tag,
            rect: info.rect,
            clip_rect: info.clip_rect,
            is_backface_visible: info.is_backface_visible,
        }
    }

    pub fn new(tag: ItemTag, info: &LayoutPrimitiveInfo) -> (r: HitTestingItem)
        ensures
            r == HitTestingItem::spec_new(tag, *info),
    {
        HitTestingItem {
            tag,
            rect: info.rect.copy(),
            clip_rect: info.clip_rect.copy(),
            is_backface_visible: info.is_backface_visible,
        }
    }
}

/// Areas that follow each other and are placed and clipped alike. `L` is a list
/// of areas.
#[derive(Debug)]
pub struct HitTestingRun<L> {
    pub items: L,
    pub clip_and_scroll: ScrollNodeAndClipChain,
}

/// A run, as it is held.
pub type HeldRun = HitTestingRun<Vec<HitTestingItem>>;

/// A run, as it is spoken of.
pub type Run = HitTestingRun<Seq<HitTestingItem>>;

impl View for HitTestingRun<Vec<HitTestingItem>> {
    type V = Run;

    open spec fn view(&self) -> Run {
        HitTestingRun { items: self.items@, clip_and_scroll: self.clip_and_scroll }
    }
}

/// The runs of a list, as they are spoken of.
pub open spec fn runs_of(runs: Seq<HeldRun>) -> Seq<Run> {
    Seq::new(runs.len(), |i: int| runs[i]@)
}

/// The runs with one more area: it joins the last run where it is placed and
/// clipped as that is, and starts a run where it is not.
pub open spec fn add_to_runs(
    runs: Seq<Run>,
    item: HitTestingItem,
    clip_and_scroll: ScrollNodeAndClipChain,
) -> Seq<Run> {
    if runs.len() > 0 && runs.last().clip_and_scroll == clip_and_scroll {
        runs.drop_last().push(
            HitTestingRun { items: runs.last().items.push(item), clip_and_scroll },
        )
    } else {
        runs.push(HitTestingRun { items: seq![item], clip_and_scroll })
    }
}

/// All areas of all runs, in order, each with its placement.
pub open spec fn hit_order(runs: Seq<Run>) -> Seq<(HitTestingItem, ScrollNodeAndClipChain)>
    decreases runs.len(),
{
    if runs.len() == 0 {
        Seq::empty()
    } else {
        hit_order(runs.drop_last()) + runs.last().items.map_values(
            |item: HitTestingItem| (item, runs.last().clip_and_scroll),
        )
    }
}

/// Whether no two runs that follow each other could be one.
pub open spec fn runs_maximal(runs: Seq<Run>) -> bool {
    &&& forall|i: int| 0 <= i < runs.len() ==> (#[trigger] runs[i]).items.len() > 0
    &&& forall|i: int, j: int|
        0 <= i && j == i + 1 && j < runs.len() ==> (#[trigger] runs[i]).clip_and_scroll != (
        #[trigger] runs[j]).clip_and_scroll
}

/// Adds an area to the runs.
pub fn push_hit_item(
    runs: &mut Vec<HeldRun>,
    item: HitTestingItem,
    clip_and_scroll: ScrollNodeAndClipChain,
)
    ensures
        runs_of(final(runs)@) == add_to_runs(runs_of(old(runs)@), item, clip_and_scroll),
{
    let count: usize = runs.len();
    if count > 0 && runs[count - 1].clip_and_scroll == clip_and_scroll {
        let mut last = runs.pop().unwrap();
        last.items.push(item);
        runs.push(last);
    } else {
        let mut items: Vec<HitTestingItem> = Vec::new();
        items.push(item);
        assert(items@ =~= seq![item]);
        runs.push(HitTestingRun { items, clip_and_scroll });
    }
    assert(runs_of(runs@) =~= add_to_runs(runs_of(old(runs)@), item, clip_and_scroll));
}

/// An area that is added to the runs comes last in the order of all areas, and
/// the others stay where they are.
pub proof fn law_hit_order_append(
    runs: Seq<Run>,
    item: HitTestingItem,
    clip_and_scroll: ScrollNodeAndClipChain,
)
    ensures
        hit_order(add_to_runs(runs, item, clip_and_scroll)) == hit_order(runs).push(
            (item, clip_and_scroll),
        ),
{
    let after = add_to_runs(runs, item, clip_and_scroll);
    if runs.len() > 0 && runs.last().clip_and_scroll == clip_and_scroll {
        assert(after.drop_last() =~= runs.drop_last());
        assert(after.last().items == runs.last().items.push(item));
        assert(hit_order(after) =~= hit_order(runs).push((item, clip_and_scroll)));
    } else {
        assert(after.drop_last() =~= runs);
        assert(hit_order(after) =~= hit_order(runs).push((item, clip_and_scroll)));
    }
}

/// Adding an area keeps the runs maximal.
pub proof fn law_runs_stay_maximal(
    runs: Seq<Run>,
    item: HitTestingItem,
    clip_and_scroll: ScrollNodeAndClipChain,
)
    requires
        runs_maximal(runs),
    ensures
        runs_maximal(add_to_runs(runs, item, clip_and_scroll)),
{
    let after = add_to_runs(runs, item, clip_and_scroll);
    assert forall|i: int, j: int|
        0 <= i && j == i + 1 && j < after.len() implies (#[trigger] after[i]).clip_and_scroll != (
    #[trigger] after[j]).clip_and_scroll by {
        assert(runs[i].clip_and_scroll == after[i].clip_and_scroll);
        if j < runs.len() {
            assert(runs[j].clip_and_scroll == after[j].clip_and_scroll);
        }
    }
}

} // verus!
