//! Trace reports that explain how a raw UI event was classified into an
//! interaction intent.
use vstd::prelude::*;
use crate::interaction::{InteractionIntentId, InteractionIntentKind, InteractionSource, InteractionTarget};
use crate::raw_event::{RawUiEventId, RawUiEventKind};

verus! {

#[derive(Debug, Clone, Copy, PartialEq, Eq, Hash, Structural)]
pub enum InteractionIntentTraceStatus {
    Classified,
    Unclassified,
}

#[derive(Debug, Clone, Copy, PartialEq, Eq, Hash, Structural)]
pub enum InteractionIntentTraceReason {
    DirectMapping,
    WindowMapping,
    UnknownRawEvent,
}

#[derive(Debug, Clone, Copy, PartialEq, Eq, Hash, Structural)]
pub enum InteractionIntentMappingRule {
    PointerDownActivate,
    WindowClose,
    Unknown,
}

#[derive(Debug, Clone, Copy, PartialEq, Eq, Hash, Structural)]
pub struct InteractionIntentTraceReport {
    pub raw_event_id: RawUiEventId,
    pub intent_id: InteractionIntentId,
    pub raw_kind: RawUiEventKind,
    pub intent_kind: InteractionIntentKind,
    pub source: InteractionSource,
    pub target: Option<InteractionTarget>,
    pub status: InteractionIntentTraceStatus,
    pub reason: InteractionIntentTraceReason,
    pub rule: InteractionIntentMappingRule,
}

} // verus!
