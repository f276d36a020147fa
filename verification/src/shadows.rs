//! What is put off while a shadow is active.
use vstd::prelude::*;

use crate::ids::ScrollNodeAndClipChain;
use crate::primitives::{
    CreateShadow, Image, Internable, IsVisible, LayoutPrimitiveInfo, LineDecoration,
    NormalBorderPrim, Primitive, PrimitiveKeyKind, Shadow, TextRun,
};

verus! {

/// A primitive that is added while a shadow is active is stored as a pending
/// primitive, and only added to pictures when all shadows are popped.
#[derive(Debug)]
pub struct PendingPrimitive<T> {
    pub clip_and_scroll: ScrollNodeAndClipChain,
    pub info: LayoutPrimitiveInfo,
    pub prim: T,
}

/// As shadows are pushed, they are stored as pending shadows, and handled at
/// once when all shadows are popped.
#[derive(Clone, Copy, Debug)]
pub struct PendingShadow {
    pub shadow: Shadow,
    pub clip_and_scroll: ScrollNodeAndClipChain,
}

/// A shadow, or a primitive that was added while one was active.
#[derive(Debug)]
pub enum ShadowItem<'a> {
    Shadow(PendingShadow),
    Image(PendingPrimitive<Image>),
    LineDecoration(PendingPrimitive<LineDecoration>),
    NormalBorder(PendingPrimitive<NormalBorderPrim>),
    Primitive(PendingPrimitive<PrimitiveKeyKind>),
    TextRun(PendingPrimitive<TextRun<'a>>),
}

/// What a pending primitive comes to, whatever kind of primitive it is.
pub struct PendingParts<'a> {
    pub clip_and_scroll: ScrollNodeAndClipChain,
    pub info: LayoutPrimitiveInfo,
    pub key: Primitive<'a>,
    pub visible: bool,
}

impl<'a, P: IsVisible + Internable<'a>> PendingPrimitive<P> {
    /// What this comes to.
    pub open spec fn parts(self) -> PendingParts<'a> {
        PendingParts {
            clip_and_scroll: self.clip_and_scroll,
            info: self.info,
            key: self.prim.key(),
            visible: self.prim.visible(),
        }
    }
}

impl<'a, P: CreateShadow + Internable<'a>> PendingPrimitive<P> {
    /// The key of the primitive as `shadow` shows it.
    pub open spec fn shadow_key(self, shadow: Shadow) -> Primitive<'a> {
        self.prim.shadowed(shadow).key()
    }
}

impl<'a> ShadowItem<'a> {
    /// What a pending primitive comes to; nothing for a shadow.
    pub open spec fn parts(self) -> Option<PendingParts<'a>> {
        match self {
            ShadowItem::Shadow(_) => None,
            ShadowItem::Image(p) => Some(p.parts()),
            ShadowItem::LineDecoration(p) => Some(p.parts()),
            ShadowItem::NormalBorder(p) => Some(p.parts()),
            ShadowItem::Primitive(p) => Some(p.parts()),
            ShadowItem::TextRun(p) => Some(p.parts()),
        }
    }

    /// The key of a pending primitive as `shadow` shows it; nothing for a
    /// shadow.
    pub open spec fn shadow_key(self, shadow: Shadow) -> Option<Primitive<'a>> {
        match self {
            ShadowItem::Shadow(_) => None,
            ShadowItem::Image(p) => Some(p.shadow_key(shadow)),
            ShadowItem::LineDecoration(p) => Some(p.shadow_key(shadow)),
            ShadowItem::NormalBorder(p) => Some(p.shadow_key(shadow)),
            ShadowItem::Primitive(p) => Some(p.shadow_key(shadow)),
            ShadowItem::TextRun(p) => Some(p.shadow_key(shadow)),
        }
    }
}

impl<'a> From<PendingPrimitive<Image>> for ShadowItem<'a> {
    fn from(image: PendingPrimitive<Image>) -> (r: ShadowItem<'a>) {
        ShadowItem::Image(image)
    }
}

impl<'a> vstd::std_specs::convert::FromSpecImpl<PendingPrimitive<Image>> for ShadowItem<'a> {
    open spec fn obeys_from_spec() -> bool {
        true
    }

    open spec fn from_spec(image: PendingPrimitive<Image>) -> ShadowItem<'a> {
        ShadowItem::Image(image)
    }
}

impl<'a> From<PendingPrimitive<LineDecoration>> for ShadowItem<'a> {
    fn from(line_dec: PendingPrimitive<LineDecoration>) -> (r: ShadowItem<'a>) {
        ShadowItem::LineDecoration(line_dec)
    }
}

impl<'a> vstd::std_specs::convert::FromSpecImpl<PendingPrimitive<LineDecoration>> for ShadowItem<'a> {
    open spec fn obeys_from_spec() -> bool {
        true
    }

    open spec fn from_spec(line_dec: PendingPrimitive<LineDecoration>) -> ShadowItem<'a> {
        ShadowItem::LineDecoration(line_dec)
    }
}

impl<'a> From<PendingPrimitive<NormalBorderPrim>> for ShadowItem<'a> {
    fn from(border: PendingPrimitive<NormalBorderPrim>) -> (r: ShadowItem<'a>) {
        ShadowItem::NormalBorder(border)
    }
}

impl<'a> vstd::std_specs::convert::FromSpecImpl<PendingPrimitive<NormalBorderPrim>> for ShadowItem<'a> {
    open spec fn obeys_from_spec() -> bool {
        true
    }

    open spec fn from_spec(border: PendingPrimitive<NormalBorderPrim>) -> ShadowItem<'a> {
        ShadowItem::NormalBorder(border)
    }
}

impl<'a> From<PendingPrimitive<PrimitiveKeyKind>> for ShadowItem<'a> {
    fn from(container: PendingPrimitive<PrimitiveKeyKind>) -> (r: ShadowItem<'a>) {
        ShadowItem::Primitive(container)
    }
}

impl<'a> vstd::std_specs::convert::FromSpecImpl<PendingPrimitive<PrimitiveKeyKind>> for ShadowItem<'a> {
    open spec fn obeys_from_spec() -> bool {
        true
    }

    open spec fn from_spec(container: PendingPrimitive<PrimitiveKeyKind>) -> ShadowItem<'a> {
        ShadowItem::Primitive(container)
    }
}

impl<'a> From<PendingPrimitive<TextRun<'a>>> for ShadowItem<'a> {
    fn from(text_run: PendingPrimitive<TextRun<'a>>) -> (r: ShadowItem<'a>) {
        ShadowItem::TextRun(text_run)
    }
}

impl<'a> vstd::std_specs::convert::FromSpecImpl<PendingPrimitive<TextRun<'a>>> for ShadowItem<'a> {
    open spec fn obeys_from_spec() -> bool {
        true
    }

    open spec fn from_spec(text_run: PendingPrimitive<TextRun<'a>>) -> ShadowItem<'a> {
        ShadowItem::TextRun(text_run)
    }
}

} // verus!
