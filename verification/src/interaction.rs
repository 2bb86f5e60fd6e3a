//! Normalized interaction intent descriptors.
//!
//! An intent names what a user interaction means (activate, select, close,
//! ...), where it came from and what it targets. Nothing here executes an
//! action.
use vstd::prelude::*;

verus! {

#[derive(Debug, Clone, Copy, PartialEq, Eq, PartialOrd, Ord, Hash, Structural)]
pub struct InteractionIntentId(pub u64);

#[derive(Debug, Clone, Copy, PartialEq, Eq, Hash, Structural)]
pub enum InteractionIntentKind {
    Activate,
    Cancel,
    Submit,
    Select,
    Deselect,
    Focus,
    Blur,
    Hover,
    Navigate,
    Edit,
    Drag,
    Drop,
    Scroll,
    Resize,
    Close,
    Unknown,
}

#[derive(Debug, Clone, Copy, PartialEq, Eq, Hash, Structural)]
pub enum InteractionSource {
    Pointer,
    Keyboard,
    TextInput,
    Wheel,
    Window,
    System,
    Synthetic,
    Unknown,
}

#[derive(Debug, Clone, Copy, PartialEq, Eq, Hash, PartialOrd, Ord, Structural)]
pub struct WindowId(pub u64);

#[derive(Debug, Clone, Copy, PartialEq, Eq, Hash, PartialOrd, Ord, Structural)]
pub struct SurfaceId(pub u64);

#[derive(Debug, Clone, Copy, PartialEq, Eq, Hash, PartialOrd, Ord, Structural)]
pub struct ElementId(pub u64);

#[derive(Debug, Clone, Copy, PartialEq, Eq, Hash, PartialOrd, Ord, Structural)]
pub struct RegionId(pub u64);

#[derive(Debug, Clone, Copy, PartialEq, Eq, Hash, Structural)]
pub enum InteractionTarget {
    Window(WindowId),
    Surface(SurfaceId),
    Element(ElementId),
    Region(RegionId),
}

#[derive(Debug, Clone, Copy, Default, PartialEq, Eq, Hash, Structural)]
pub struct InteractionModifiers {
    pub shift: bool,
    pub ctrl: bool,
    pub alt: bool,
    pub meta: bool,
}

#[derive(Debug, Clone, Copy, PartialEq, Eq, Hash, Structural)]
pub struct InteractionIntentDescriptor {
    pub id: InteractionIntentId,
    pub source: InteractionSource,
    pub kind: InteractionIntentKind,
    pub target: Option<InteractionTarget>,
    pub modifiers: InteractionModifiers,
}

impl InteractionIntentDescriptor {
    /// An intent is classified when neither its kind nor its source is unknown.
    pub open spec fn classified(self) -> bool {
        self.kind != InteractionIntentKind::Unknown && self.source != InteractionSource::Unknown
    }

    pub fn new(
        id: InteractionIntentId,
        source: InteractionSource,
        kind: InteractionIntentKind,
        target: Option<InteractionTarget>,
        modifiers: InteractionModifiers,
    ) -> (r: Self)
        ensures
            r == (InteractionIntentDescriptor { id, source, kind, target, modifiers }),
    {
        Self { id, source, kind, target, modifiers }
    }

    pub fn unknown(id: InteractionIntentId) -> (r: Self)
        ensures
            r.id == id,
            r.source == InteractionSource::Unknown,
            r.kind == InteractionIntentKind::Unknown,
            r.target is None,
            r.modifiers == (InteractionModifiers { shift: false, ctrl: false, alt: false, meta: false }),
            !r.classified(),
    {
        Self {
            id,
            source: InteractionSource::Unknown,
            kind: InteractionIntentKind::Unknown,
            target: None,
            modifiers: InteractionModifiers { shift: false, ctrl: false, alt: false, meta: false },
        }
    }

    pub fn is_classified(&self) -> (r: bool)
        ensures
            r == self.classified(),
    {
        !matches!(self.kind, InteractionIntentKind::Unknown) && !matches!(self.source, InteractionSource::Unknown)
    }
}

} // verus!
