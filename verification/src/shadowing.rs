//! How shadows begin and end.
use std::collections::VecDeque;

use vstd::prelude::*;

use crate::flattener::DisplayListFlattener;
use crate::ids::ScrollNodeAndClipChain;
use crate::layout::{F32, LayoutRect, LayoutVector2D};
use crate::picture::{
    FilterOp, InstanceList, Picture3DContext, PictureCompositeKey, PictureCompositeMode,
    PictureOptions, PicturePrimitive, RasterSpace, SanitizedFilter,
};
use crate::primitives::{CreateShadow, Internable, IsVisible, LayoutPrimitiveInfo, Shadow};
use crate::shadows::{PendingPrimitive, PendingShadow, ShadowItem};
use crate::stacking_context::create_prim_instance;

verus! {

impl<'a> DisplayListFlattener<'a> {
    /// Starts a shadow. It is stored, and drawn when all shadows are popped.
    pub fn push_shadow(&mut self, shadow: Shadow, clip_and_scroll: ScrollNodeAndClipChain)
        ensures
            final(self)@ == old(self)@.push_shadow(shadow, clip_and_scroll),
    {
        self.pending_shadow_items.push_back(
            ShadowItem::Shadow(PendingShadow { shadow, clip_and_scroll }),
        );
    }

    /// Makes the primitive that stands for a pending one in a shadow, and adds
    /// it to a list.
    fn add_shadow_prim<P: Internable<'a> + CreateShadow + IsVisible>(
        &mut self,
        pending_shadow: &PendingShadow,
        pending_primitive: &PendingPrimitive<P>,
        prims: &mut InstanceList,
        reference_frame_relative_offset: &LayoutVector2D,
    )
        ensures
            final(self)@ == old(self)@.add_shadow_prim(
                pending_shadow.shadow,
                pending_primitive.parts(),
                pending_primitive.shadow_key(pending_shadow.shadow),
                *reference_frame_relative_offset,
            ),
            final(prims)@ == old(prims)@.push(
                old(self)@.added_shadow_prim(pending_shadow.shadow, pending_primitive.parts()),
            ),
    {
        // Offset the local rect and clip rect by the shadow offset.
        let offset = LayoutVector2D::Value(pending_shadow.shadow.offset);
        let info = LayoutPrimitiveInfo {
            rect: pending_primitive.info.rect.copy().translate(offset.copy()),
            clip_rect: pending_primitive.info.clip_rect.copy().translate(offset),
            is_backface_visible: pending_primitive.info.is_backface_visible,
            tag: pending_primitive.info.tag,
        };
        let shadow_prim_instance = self.create_primitive(
            &info,
            pending_primitive.clip_and_scroll.clip_chain_id,
            pending_primitive.clip_and_scroll.spatial_node_index,
            pending_primitive.prim.create_shadow(&pending_shadow.shadow),
            reference_frame_relative_offset,
        );
        prims.push(shadow_prim_instance);
    }

    /// Draws a pending primitive as a normal one, where it is visible.
    fn add_shadow_prim_to_draw_list<P: Internable<'a> + IsVisible>(
        &mut self,
        pending_primitive: PendingPrimitive<P>,
        reference_frame_relative_offset: &LayoutVector2D,
    )
        requires
            pending_primitive.prim.visible() ==> old(self)@.sc_stack.len() > 0,
        ensures
            final(self)@ == old(self)@.add_shadow_prim_to_draw_list(
                pending_primitive.parts(),
                *reference_frame_relative_offset,
            ),
    {
        if pending_primitive.prim.is_visible() {
            self.add_prim_to_draw_list(
                &pending_primitive.info,
                pending_primitive.clip_and_scroll.clip_chain_id,
                pending_primitive.clip_and_scroll,
                pending_primitive.prim,
                reference_frame_relative_offset,
            );
        }
    }

    /// Makes the primitives that a shadow shows, of all pending ones in `items`.
    fn add_shadow_prims(
        &mut self,
        pending_shadow: &PendingShadow,
        items: &VecDeque<ShadowItem<'a>>,
        reference_frame_relative_offset: &LayoutVector2D,
    ) -> (r: InstanceList)
        ensures
            final(self)@ == old(self)@.add_shadow_prims(
                pending_shadow.shadow,
                items@,
                *reference_frame_relative_offset,
            ),
            r@ == old(self)@.added_shadow_prims(
                pending_shadow.shadow,
                items@,
                *reference_frame_relative_offset,
            ),
            final(self)@.sc_stack == old(self)@.sc_stack,
    {
        let mut prims: InstanceList = Vec::new();
        let mut i: usize = 0;
        while i < items.len()
            invariant
                i <= items@.len(),
                self@ == old(self)@.add_shadow_prims(
                    pending_shadow.shadow,
                    items@.take(i as int),
                    *reference_frame_relative_offset,
                ),
                prims@ == old(self)@.added_shadow_prims(
                    pending_shadow.shadow,
                    items@.take(i as int),
                    *reference_frame_relative_offset,
                ),
                self@.sc_stack == old(self)@.sc_stack,
            decreases items@.len() - i,
        {
            assert(items@.take(i + 1).drop_last() =~= items@.take(i as int));
            match &items[i] {
                ShadowItem::Image(pending) => {
                    self.add_shadow_prim(
                        pending_shadow,
                        pending,
                        &mut prims,
                        reference_frame_relative_offset,
                    );
                },
                ShadowItem::LineDecoration(pending) => {
                    self.add_shadow_prim(
                        pending_shadow,
                        pending,
                        &mut prims,
                        reference_frame_relative_offset,
                    );
                },
                ShadowItem::NormalBorder(pending) => {
                    self.add_shadow_prim(
                        pending_shadow,
                        pending,
                        &mut prims,
                        reference_frame_relative_offset,
                    );
                },
                ShadowItem::Primitive(pending) => {
                    self.add_shadow_prim(
                        pending_shadow,
                        pending,
                        &mut prims,
                        reference_frame_relative_offset,
                    );
                },
                ShadowItem::TextRun(pending) => {
                    self.add_shadow_prim(
                        pending_shadow,
                        pending,
                        &mut prims,
                        reference_frame_relative_offset,
                    );
                },
                ShadowItem::Shadow(_) => {},
            }
            i = i + 1;
        }
        assert(items@.take(i as int) =~= items@);
        prims
    }

    /// Draws a shadow of all pending primitives in `items`.
    fn draw_shadow(
        &mut self,
        pending_shadow: &PendingShadow,
        items: &VecDeque<ShadowItem<'a>>,
        reference_frame_relative_offset: &LayoutVector2D,
    )
        requires
            old(self)@.sc_stack.len() > 0,
        ensures
            final(self)@ == old(self)@.draw_shadow(
                *pending_shadow,
                items@,
                *reference_frame_relative_offset,
            ),
            final(self)@.sc_stack.len() == old(self)@.sc_stack.len(),
    {
        let count: usize = self.sc_stack.len();
        let pipeline_id = self.sc_stack[count - 1].pipeline_id;

        // If the shadow has no blur, its elements are directly drawn into the
        // parent surface. The local clip rect has to apply to them then.
        let is_passthrough = pending_shadow.shadow.blur_radius.equals(F32::zero());

        // A shadow with blur is always drawn in local space.
        let raster_space = if is_passthrough {
            self.sc_stack[count - 1].requested_raster_space
        } else {
            RasterSpace::Local(F32::one())
        };
        let prims = self.add_shadow_prims(pending_shadow, items, reference_frame_relative_offset);

        // A shadow of nothing is not drawn.
        if prims.len() > 0 {
            let composite_mode = PictureCompositeMode::Filter(
                SanitizedFilter {
                    filter: FilterOp::ShadowBlur {
                        blur_radius: pending_shadow.shadow.blur_radius,
                    },
                },
            );
            let shadow_pic_index = self.prim_store.add_picture(
                PicturePrimitive {
                    requested_composite_mode: Some(composite_mode),
                    context_3d: Picture3DContext::Out,
                    pipeline_id,
                    frame_output_pipeline_id: None,
                    apply_local_clip_rect: is_passthrough,
                    requested_raster_space: raster_space,
                    prim_list: prims,
                    spatial_node_index: pending_shadow.clip_and_scroll.spatial_node_index,
                    local_clip_rect: LayoutRect::Max,
                    tile_cache: None,
                    options: Some(
                        PictureOptions {
                            inflate_if_required: pending_shadow.shadow.should_inflate,
                        },
                    ),
                    optimize: false,
                },
            );
            let shadow_prim_instance = create_prim_instance(
                shadow_pic_index,
                PictureCompositeKey::Of(Some(composite_mode)),
                true,
                pending_shadow.clip_and_scroll.clip_chain_id,
                pending_shadow.clip_and_scroll.spatial_node_index,
                &mut self.intern_log,
            );
            self.add_primitive_to_draw_list(shadow_prim_instance);
        }
    }

    /// Ends all shadows. The pending items are taken in the order in which they
    /// were added:
    ///
    /// - a shadow becomes a picture of all primitives that come after it,
    /// - a primitive is drawn as a normal one, where it is visible.
    pub fn pop_all_shadows(&mut self, reference_frame_relative_offset: &LayoutVector2D)
        requires
            old(self)@.pending_shadow_items.len() > 0,
            old(self)@.sc_stack.len() > 0,
        ensures
            final(self)@ == old(self)@.pop_all_shadows(*reference_frame_relative_offset),
    {
        let mut items: VecDeque<ShadowItem<'a>> = VecDeque::new();
        std::mem::swap(&mut items, &mut self.pending_shadow_items);
        let ghost all = items@;
        let ghost start = self@;
        assert(start.pending_shadow_items =~= Seq::empty());
        while items.len() > 0
            invariant
                self@.draw_pending(items@, *reference_frame_relative_offset) == start.draw_pending(
                    all,
                    *reference_frame_relative_offset,
                ),
                self@.sc_stack.len() > 0,
            decreases items@.len(),
        {
            let ghost before = items@;
            let item = items.pop_front().unwrap();
            assert(items@ =~= before.drop_first());
            match item {
                ShadowItem::Shadow(pending_shadow) => {
                    self.draw_shadow(&pending_shadow, &items, reference_frame_relative_offset);
                },
                ShadowItem::Image(pending) => {
                    self.add_shadow_prim_to_draw_list(pending, reference_frame_relative_offset);
                },
                ShadowItem::LineDecoration(pending) => {
                    self.add_shadow_prim_to_draw_list(pending, reference_frame_relative_offset);
                },
                ShadowItem::NormalBorder(pending) => {
                    self.add_shadow_prim_to_draw_list(pending, reference_frame_relative_offset);
                },
                ShadowItem::Primitive(pending) => {
                    self.add_shadow_prim_to_draw_list(pending, reference_frame_relative_offset);
                },
                ShadowItem::TextRun(pending) => {
                    self.add_shadow_prim_to_draw_list(pending, reference_frame_relative_offset);
                },
            }
        }
    }
}

} // verus!
