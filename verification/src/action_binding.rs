//! Candidate bindings between interaction intents and future action names.
//!
//! The registry is an inert table: it dispatches nothing and admits nothing.
use vstd::prelude::*;
use crate::interaction::InteractionIntentKind;

verus! {

#[derive(Debug, Clone, Copy, PartialEq, Eq, PartialOrd, Ord, Hash, Structural)]
pub struct InteractionActionBindingId(pub u64);

#[derive(Debug, Clone, Copy, PartialEq, Eq, Hash, Structural)]
pub enum InteractionActionName {
    CloseWindow,
    OpenInspector,
    SelectTraceEvent,
    FocusModule,
    ExpandCapabilityGate,
    PrepareEffect,
    CommitEffect,
    RollbackEffect,
    AcknowledgeError,
    OpenDenialReason,
    PinTrace,
    QuarantineTarget,
    Unknown,
}

/// The dotted name under which each action is published.
pub open spec fn action_name_text(name: InteractionActionName) -> Seq<char> {
    match name {
        InteractionActionName::CloseWindow => "ui.action.close_window"@,
        InteractionActionName::OpenInspector => "ui.action.open_inspector"@,
        InteractionActionName::SelectTraceEvent => "ui.action.select_trace_event"@,
        InteractionActionName::FocusModule => "ui.action.focus_module"@,
        InteractionActionName::ExpandCapabilityGate => "ui.action.expand_capability_gate"@,
        InteractionActionName::PrepareEffect => "ui.action.prepare_effect"@,
        InteractionActionName::CommitEffect => "ui.action.commit_effect"@,
        InteractionActionName::RollbackEffect => "ui.action.rollback_effect"@,
        InteractionActionName::AcknowledgeError => "ui.action.acknowledge_error"@,
        InteractionActionName::OpenDenialReason => "ui.action.open_denial_reason"@,
        InteractionActionName::PinTrace => "ui.action.pin_trace"@,
        InteractionActionName::QuarantineTarget => "ui.action.quarantine_target"@,
        InteractionActionName::Unknown => "ui.action.unknown"@,
    }
}

impl InteractionActionName {
    pub fn as_str(self) -> (r: &'static str)
        ensures
            r@ == action_name_text(self),
    {
        match self {
            Self::CloseWindow => "ui.action.close_window",
            Self::OpenInspector => "ui.action.open_inspector",
            Self::SelectTraceEvent => "ui.action.select_trace_event",
            Self::FocusModule => "ui.action.focus_module",
            Self::ExpandCapabilityGate => "ui.action.expand_capability_gate",
            Self::PrepareEffect => "ui.action.prepare_effect",
            Self::CommitEffect => "ui.action.commit_effect",
            Self::RollbackEffect => "ui.action.rollback_effect",
            Self::AcknowledgeError => "ui.action.acknowledge_error",
            Self::OpenDenialReason => "ui.action.open_denial_reason",
            Self::PinTrace => "ui.action.pin_trace",
            Self::QuarantineTarget => "ui.action.quarantine_target",
            Self::Unknown => "ui.action.unknown",
        }
    }
}

#[derive(Debug, Clone, Copy, PartialEq, Eq, Hash, Structural)]
pub enum InteractionActionBindingScope {
    CoreUi,
    WorkbenchLocal,
    DiagnosticOnly,
}

#[derive(Debug, Clone, Copy, PartialEq, Eq, Hash, Structural)]
pub enum InteractionActionTargetPolicy {
    RequiresTarget,
    AllowsMissingTarget,
    IgnoresTarget,
}

#[derive(Debug, Clone, Copy, PartialEq, Eq, Hash, Structural)]
pub enum InteractionActionAdmissionPolicy {
    Required,
}

#[derive(Debug, Clone, Copy, PartialEq, Eq, Hash, Structural)]
pub enum InteractionActionEffectPolicy {
    NoEffect,
    MayRequestEffect,
    RequiresSeparateEffectAdmission,
}

#[derive(Debug, Clone, Copy, PartialEq, Eq, Hash, Structural)]
pub enum InteractionActionTracePolicy {
    Required,
    OptionalForDecorativeOnly,
}

#[derive(Debug, Clone, Copy, PartialEq, Eq, Hash, Structural)]
pub struct InteractionActionBindingDescriptor {
    pub id: InteractionActionBindingId,
    pub source_intent: InteractionIntentKind,
    pub action: InteractionActionName,
    pub scope: InteractionActionBindingScope,
    pub target_policy: InteractionActionTargetPolicy,
    pub admission_policy: InteractionActionAdmissionPolicy,
    pub effect_policy: InteractionActionEffectPolicy,
    pub trace_policy: InteractionActionTracePolicy,
}

impl InteractionActionBindingDescriptor {
    pub fn new(
        id: InteractionActionBindingId,
        source_intent: InteractionIntentKind,
        action: InteractionActionName,
        scope: InteractionActionBindingScope,
        target_policy: InteractionActionTargetPolicy,
        admission_policy: InteractionActionAdmissionPolicy,
        effect_policy: InteractionActionEffectPolicy,
        trace_policy: InteractionActionTracePolicy,
    ) -> (r: Self)
        ensures
            r == (InteractionActionBindingDescriptor {
                id,
                source_intent,
                action,
                scope,
                target_policy,
                admission_policy,
                effect_policy,
                trace_policy,
            }),
    {
        Self { id, source_intent, action, scope, target_policy, admission_policy, effect_policy, trace_policy }
    }

    pub fn requires_target(&self) -> (r: bool)
        ensures
            r == (self.target_policy == InteractionActionTargetPolicy::RequiresTarget),
    {
        matches!(self.target_policy, InteractionActionTargetPolicy::RequiresTarget)
    }

    pub fn requires_admission(&self) -> (r: bool)
        ensures
            r == (self.admission_policy == InteractionActionAdmissionPolicy::Required),
    {
        matches!(self.admission_policy, InteractionActionAdmissionPolicy::Required)
    }

    pub fn may_request_effect(&self) -> (r: bool)
        ensures
            r == (self.effect_policy != InteractionActionEffectPolicy::NoEffect),
    {
        matches!(
            self.effect_policy,
            InteractionActionEffectPolicy::MayRequestEffect
                | InteractionActionEffectPolicy::RequiresSeparateEffectAdmission
        )
    }

    pub fn requires_trace(&self) -> (r: bool)
        ensures
            r == (self.trace_policy == InteractionActionTracePolicy::Required),
    {
        matches!(self.trace_policy, InteractionActionTracePolicy::Required)
    }
}

pub open spec fn binding_entry(
    id: u64,
    source_intent: InteractionIntentKind,
    action: InteractionActionName,
    scope: InteractionActionBindingScope,
    target_policy: InteractionActionTargetPolicy,
) -> InteractionActionBindingDescriptor {
    InteractionActionBindingDescriptor {
        id: InteractionActionBindingId(id),
        source_intent,
        action,
        scope,
        target_policy,
        admission_policy: InteractionActionAdmissionPolicy::Required,
        effect_policy: InteractionActionEffectPolicy::NoEffect,
        trace_policy: InteractionActionTracePolicy::Required,
    }
}

/// The registry of candidate bindings, in registration order.
pub open spec fn binding_registry() -> Seq<InteractionActionBindingDescriptor> {
    seq![
        binding_entry(1, InteractionIntentKind::Close, InteractionActionName::CloseWindow,
            InteractionActionBindingScope::CoreUi, InteractionActionTargetPolicy::IgnoresTarget),
        binding_entry(2, InteractionIntentKind::Select, InteractionActionName::SelectTraceEvent,
            InteractionActionBindingScope::CoreUi, InteractionActionTargetPolicy::RequiresTarget),
        binding_entry(3, InteractionIntentKind::Navigate, InteractionActionName::FocusModule,
            InteractionActionBindingScope::CoreUi, InteractionActionTargetPolicy::AllowsMissingTarget),
        binding_entry(4, InteractionIntentKind::Submit, InteractionActionName::OpenInspector,
            InteractionActionBindingScope::WorkbenchLocal, InteractionActionTargetPolicy::RequiresTarget),
        binding_entry(5, InteractionIntentKind::Cancel, InteractionActionName::AcknowledgeError,
            InteractionActionBindingScope::CoreUi, InteractionActionTargetPolicy::AllowsMissingTarget),
    ]
}

/// The first binding of `reg` for `action`, if any.
pub open spec fn first_binding_for_action(
    reg: Seq<InteractionActionBindingDescriptor>,
    action: InteractionActionName,
) -> Option<InteractionActionBindingDescriptor> {
    if exists|i: int| 0 <= i < reg.len() && reg[i].action == action {
        let i = choose|i: int| 0 <= i < reg.len() && reg[i].action == action
            && forall|j: int| 0 <= j < i ==> reg[j].action != action;
        Some(reg[i])
    } else {
        None
    }
}

/// The first binding of `reg` whose source intent is `intent`, if any.
pub open spec fn first_binding_for_intent(
    reg: Seq<InteractionActionBindingDescriptor>,
    intent: InteractionIntentKind,
) -> Option<InteractionActionBindingDescriptor> {
    if exists|i: int| 0 <= i < reg.len() && reg[i].source_intent == intent {
        let i = choose|i: int| 0 <= i < reg.len() && reg[i].source_intent == intent
            && forall|j: int| 0 <= j < i ==> reg[j].source_intent != intent;
        Some(reg[i])
    } else {
        None
    }
}

/// The first registered binding for `action`, if any.
pub open spec fn binding_for_action(action: InteractionActionName) -> Option<InteractionActionBindingDescriptor> {
    first_binding_for_action(binding_registry(), action)
}

/// The first registered binding whose source intent is `intent`, if any.
pub open spec fn binding_for_intent(intent: InteractionIntentKind) -> Option<InteractionActionBindingDescriptor> {
    first_binding_for_intent(binding_registry(), intent)
}

pub fn interaction_action_bindings() -> (r: Vec<InteractionActionBindingDescriptor>)
    ensures
        r@ == binding_registry(),
{
    let mut v = Vec::new();
    v.push(InteractionActionBindingDescriptor::new(
        InteractionActionBindingId(1),
        InteractionIntentKind::Close,
        InteractionActionName::CloseWindow,
        InteractionActionBindingScope::CoreUi,
        InteractionActionTargetPolicy::IgnoresTarget,
        InteractionActionAdmissionPolicy::Required,
        InteractionActionEffectPolicy::NoEffect,
        InteractionActionTracePolicy::Required,
    ));
    v.push(InteractionActionBindingDescriptor::new(
        InteractionActionBindingId(2),
        InteractionIntentKind::Select,
        InteractionActionName::SelectTraceEvent,
        InteractionActionBindingScope::CoreUi,
        InteractionActionTargetPolicy::RequiresTarget,
        InteractionActionAdmissionPolicy::Required,
        InteractionActionEffectPolicy::NoEffect,
        InteractionActionTracePolicy::Required,
    ));
    v.push(InteractionActionBindingDescriptor::new(
        InteractionActionBindingId(3),
        InteractionIntentKind::Navigate,
        InteractionActionName::FocusModule,
        InteractionActionBindingScope::CoreUi,
        InteractionActionTargetPolicy::AllowsMissingTarget,
        InteractionActionAdmissionPolicy::Required,
        InteractionActionEffectPolicy::NoEffect,
        InteractionActionTracePolicy::Required,
    ));
    v.push(InteractionActionBindingDescriptor::new(
        InteractionActionBindingId(4),
        InteractionIntentKind::Submit,
        InteractionActionName::OpenInspector,
        InteractionActionBindingScope::WorkbenchLocal,
        InteractionActionTargetPolicy::RequiresTarget,
        InteractionActionAdmissionPolicy::Required,
        InteractionActionEffectPolicy::NoEffect,
        InteractionActionTracePolicy::Required,
    ));
    v.push(InteractionActionBindingDescriptor::new(
        InteractionActionBindingId(5),
        InteractionIntentKind::Cancel,
        InteractionActionName::AcknowledgeError,
        InteractionActionBindingScope::CoreUi,
        InteractionActionTargetPolicy::AllowsMissingTarget,
        InteractionActionAdmissionPolicy::Required,
        InteractionActionEffectPolicy::NoEffect,
        InteractionActionTracePolicy::Required,
    ));
    assert(v@ =~= binding_registry());
    v
}

pub fn find_interaction_action_binding_by_action(action: InteractionActionName) -> (r: Option<
    InteractionActionBindingDescriptor,
>)
    ensures
        r == binding_for_action(action),
{
    let r = find_binding_by_action_in(&interaction_action_bindings(), action);
    r
}

fn find_binding_by_action_in(bindings: &Vec<InteractionActionBindingDescriptor>, action: InteractionActionName) -> (r: Option<
    InteractionActionBindingDescriptor,
>)
    ensures
        r == first_binding_for_action(bindings@, action),
{
    let ghost reg = bindings@;
    let mut i: usize = 0;
    while i < bindings.len()
        invariant
            bindings@ == reg,
            0 <= i <= bindings.len(),
            forall|j: int| 0 <= j < i ==> reg[j].action != action,
        decreases bindings.len() - i,
    {
        if bindings[i].action == action {
            let b = bindings[i];
            proof {
                let k = choose|k: int| 0 <= k < reg.len() && reg[k].action == action
                    && forall|j: int| 0 <= j < k ==> reg[j].action != action;
                assert(k == i as int) by {
                    if k < i as int {
                    } else if k > i as int {
                        assert(reg[i as int].action == action);
                    }
                }
            }
            return Some(b);
        }
        i = i + 1;
    }
    None
}

pub fn find_interaction_action_binding_by_intent(intent: InteractionIntentKind) -> (r: Option<
    InteractionActionBindingDescriptor,
>)
    ensures
        r == binding_for_intent(intent),
{
    let r = find_binding_by_intent_in(&interaction_action_bindings(), intent);
    r
}

fn find_binding_by_intent_in(bindings: &Vec<InteractionActionBindingDescriptor>, intent: InteractionIntentKind) -> (r: Option<
    InteractionActionBindingDescriptor,
>)
    ensures
        r == first_binding_for_intent(bindings@, intent),
{
    let ghost reg = bindings@;
    let mut i: usize = 0;
    while i < bindings.len()
        invariant
            bindings@ == reg,
            0 <= i <= bindings.len(),
            forall|j: int| 0 <= j < i ==> reg[j].source_intent != intent,
        decreases bindings.len() - i,
    {
        if bindings[i].source_intent == intent {
            let b = bindings[i];
            proof {
                let k = choose|k: int| 0 <= k < reg.len() && reg[k].source_intent == intent
                    && forall|j: int| 0 <= j < k ==> reg[j].source_intent != intent;
                assert(k == i as int) by {
                    if k < i as int {
                    } else if k > i as int {
                        assert(reg[i as int].source_intent == intent);
                    }
                }
            }
            return Some(b);
        }
        i = i + 1;
    }
    None
}

/// Every registered binding requires admission and a trace, and none may
/// request an effect.
pub proof fn lemma_registry_bindings_require_admission_without_effects()
    ensures
        forall|i: int|
            #![trigger binding_registry()[i]]
            0 <= i < binding_registry().len() ==> {
                &&& binding_registry()[i].admission_policy == InteractionActionAdmissionPolicy::Required
                &&& binding_registry()[i].effect_policy == InteractionActionEffectPolicy::NoEffect
                &&& binding_registry()[i].trace_policy == InteractionActionTracePolicy::Required
            },
{
}

/// The registry is not empty, and no two registered bindings share an id.
pub proof fn lemma_registry_ids_are_unique()
    ensures
        binding_registry().len() > 0,
        forall|i: int, j: int|
            0 <= i < j < binding_registry().len() ==> binding_registry()[i].id != binding_registry()[j].id,
{
}

/// The unknown action is never registered, so no binding is found for it.
pub proof fn lemma_unknown_action_is_not_registered()
    ensures
        forall|i: int|
            #![trigger binding_registry()[i]]
            0 <= i < binding_registry().len() ==> binding_registry()[i].action != InteractionActionName::Unknown,
        binding_for_action(InteractionActionName::Unknown) is None,
{
}

/// Every published action name starts with `ui.action.`.
pub proof fn lemma_action_names_have_ui_action_prefix(name: InteractionActionName)
    ensures
        action_name_text(name).len() > 10,
        action_name_text(name).subrange(0, 10) == "ui.action."@,
{
    reveal_strlit("ui.action.");
    match name {
        InteractionActionName::CloseWindow => reveal_strlit("ui.action.close_window"),
        InteractionActionName::OpenInspector => reveal_strlit("ui.action.open_inspector"),
        InteractionActionName::SelectTraceEvent => reveal_strlit("ui.action.select_trace_event"),
        InteractionActionName::FocusModule => reveal_strlit("ui.action.focus_module"),
        InteractionActionName::ExpandCapabilityGate => reveal_strlit("ui.action.expand_capability_gate"),
        InteractionActionName::PrepareEffect => reveal_strlit("ui.action.prepare_effect"),
        InteractionActionName::CommitEffect => reveal_strlit("ui.action.commit_effect"),
        InteractionActionName::RollbackEffect => reveal_strlit("ui.action.rollback_effect"),
        InteractionActionName::AcknowledgeError => reveal_strlit("ui.action.acknowledge_error"),
        InteractionActionName::OpenDenialReason => reveal_strlit("ui.action.open_denial_reason"),
        InteractionActionName::PinTrace => reveal_strlit("ui.action.pin_trace"),
        InteractionActionName::QuarantineTarget => reveal_strlit("ui.action.quarantine_target"),
        InteractionActionName::Unknown => reveal_strlit("ui.action.unknown"),
    }
    assert(action_name_text(name).subrange(0, 10) =~= "ui.action."@);
}

/// A binding found for an intent is a registered binding for that intent.
pub proof fn lemma_binding_for_intent_is_registered(intent: InteractionIntentKind)
    ensures
        binding_for_intent(intent) matches Some(b) ==> exists|i: int|
            0 <= i < binding_registry().len() && #[trigger] binding_registry()[i] == b && b.source_intent == intent,
{
    if binding_for_intent(intent) is Some {
        let reg = binding_registry();
        let i = choose|i: int| 0 <= i < reg.len() && reg[i].source_intent == intent
            && forall|j: int| 0 <= j < i ==> reg[j].source_intent != intent;
        assert(binding_registry()[i] == binding_for_intent(intent)->0);
    }
}

} // verus!
