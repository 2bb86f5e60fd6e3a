#![allow(unused_imports)]
use prom_ui::action_binding::{InteractionActionBindingId, InteractionActionName, action_name_text, InteractionActionBindingScope, InteractionActionTargetPolicy, InteractionActionAdmissionPolicy, InteractionActionEffectPolicy, InteractionActionTracePolicy, InteractionActionBindingDescriptor, binding_entry, binding_registry, first_binding_for_action, first_binding_for_intent, binding_for_action, binding_for_intent, interaction_action_bindings, find_interaction_action_binding_by_action, find_interaction_action_binding_by_intent};
use prom_ui::interaction::InteractionIntentKind;

#[test]
fn action_binding_registry_is_not_empty() {
    assert!(!interaction_action_bindings().is_empty());
}

#[test]
fn all_bindings_require_admission() {
    for binding in interaction_action_bindings() {
        assert!(binding.requires_admission());
    }
}

#[test]
fn action_names_have_ui_action_prefix() {
    for binding in interaction_action_bindings() {
        assert!(binding.action.as_str().starts_with("ui.action."));
    }
}

#[test]
fn close_intent_maps_to_close_window_candidate() {
    let binding = find_interaction_action_binding_by_intent(InteractionIntentKind::Close)
        .expect("close binding should exist");

    assert_eq!(binding.action, InteractionActionName::CloseWindow);
    assert_eq!(
        binding.target_policy,
        InteractionActionTargetPolicy::IgnoresTarget
    );
    assert!(binding.requires_trace());
}

#[test]
fn select_trace_event_requires_target() {
    let binding =
        find_interaction_action_binding_by_action(InteractionActionName::SelectTraceEvent)
            .expect("select trace event binding should exist");

    assert_eq!(binding.source_intent, InteractionIntentKind::Select);
    assert!(binding.requires_target());
}

#[test]
fn initial_bindings_do_not_produce_effects() {
    for binding in interaction_action_bindings() {
        assert_eq!(
            binding.effect_policy,
            InteractionActionEffectPolicy::NoEffect
        );
        assert!(!binding.may_request_effect());
    }
}

#[test]
fn binding_ids_are_unique() {
    let bindings = interaction_action_bindings();

    for (index, left) in bindings.iter().enumerate() {
        for right in bindings.iter().skip(index + 1) {
            assert_ne!(left.id, right.id);
        }
    }
}

#[test]
fn unknown_action_is_not_registered() {
    assert!(
        find_interaction_action_binding_by_action(InteractionActionName::Unknown).is_none()
    );
}
