#![allow(unused_imports)]
use prom_ui::hit_test::{topmost_drawn_hit, topmost_placed_hit};
use prom_ui::interaction::{InteractionIntentId, InteractionIntentKind, InteractionSource, WindowId, SurfaceId, ElementId, RegionId, InteractionTarget, InteractionModifiers, InteractionIntentDescriptor};

#[test]
fn unknown_intent_is_not_classified() {
    let intent = InteractionIntentDescriptor::unknown(InteractionIntentId(1));
    assert!(!intent.is_classified());
}

#[test]
fn activate_pointer_intent_is_classified() {
    let intent = InteractionIntentDescriptor::new(
        InteractionIntentId(1),
        InteractionSource::Pointer,
        InteractionIntentKind::Activate,
        Some(InteractionTarget::Element(ElementId(7))),
        InteractionModifiers::default(),
    );

    assert!(intent.is_classified());
}

#[test]
fn modifiers_default_to_false() {
    let modifiers = InteractionModifiers::default();

    assert!(!modifiers.shift);
    assert!(!modifiers.ctrl);
    assert!(!modifiers.alt);
    assert!(!modifiers.meta);
}

#[test]
fn topmost_drawn_hit_is_the_last_containing_rectangle() {
    assert_eq!(topmost_drawn_hit(&[true, false, true, false]), Some(2));
    assert_eq!(topmost_drawn_hit(&[false, false]), None);
    assert_eq!(topmost_drawn_hit(&[]), None);
}

#[test]
fn topmost_placed_hit_takes_the_highest_order_and_the_later_among_equals() {
    assert_eq!(topmost_placed_hit(&[true, true, false], &[3, 1, 9]), Some(0));
    assert_eq!(topmost_placed_hit(&[true, false, true], &[2, 5, 2]), Some(2));
    assert_eq!(topmost_placed_hit(&[false, false], &[0, 0]), None);
    assert_eq!(topmost_placed_hit(&[true], &[0]), Some(0));
}
