use boxmux::bounds::Bounds;
use boxmux::sensitive_zone::{ContentType, SensitiveZone, SensitiveZoneState, ZoneStyle};

fn zone() -> SensitiveZone {
    SensitiveZone::new(
        "z".to_string(),
        Bounds::new(2, 3, 10, 5),
        "text".to_string(),
        "act".to_string(),
        ContentType::Button,
    )
}

#[test]
fn test_zone_new_defaults() {
    let z = zone();
    assert_eq!(z.state, SensitiveZoneState::Normal);
    assert!(z.metadata.enabled);
    assert!(z.is_interactive());
    assert!(!z.needs_redraw());
    assert_eq!(z.get_display_attributes(), (None, None, false, false, false));
}

#[test]
fn test_zone_contains_point_inclusive() {
    let z = zone();
    assert!(z.contains_point(2, 3));
    assert!(z.contains_point(10, 5));
    assert!(!z.contains_point(11, 5));
    assert!(!z.contains_point(1, 4));
}

#[test]
fn test_zone_styles_follow_state() {
    let mut z = zone();
    z.set_state(SensitiveZoneState::Hovered);
    assert!(z.needs_redraw());
    assert_eq!(z.get_display_attributes(), (Some((255, 255, 255)), Some((100, 149, 237)), false, false, false));
    z.set_state(SensitiveZoneState::Selected);
    assert!(!z.needs_redraw());
    assert_eq!(z.get_display_attributes(), (Some((255, 255, 255)), Some((70, 130, 180)), true, false, false));
    z.set_state(SensitiveZoneState::SelectedHovered);
    assert!(z.needs_redraw());
    assert_eq!(z.current_style().bg_color, Some((100, 149, 237)));
    z.set_state(SensitiveZoneState::Disabled);
    assert!(!z.is_interactive());
    assert_eq!(z.current_style().bg_color, None);
}

#[test]
fn test_zone_new_choice_and_updates() {
    let mut z = SensitiveZone::new_choice(
        "c".to_string(),
        Bounds::new(0, 0, 4, 1),
        "Run".to_string(),
        "run".to_string(),
        Some((1, 2, 3)),
        None,
        Some((4, 5, 6)),
        Some((7, 8, 9)),
    );
    assert_eq!(z.content_type, ContentType::Choice);
    assert_eq!(z.metadata.display_text.as_deref(), Some("Run"));
    assert_eq!(z.normal_style.fg_color, Some((1, 2, 3)));
    z.set_state(SensitiveZoneState::Hovered);
    assert_eq!(z.get_display_attributes(), (Some((4, 5, 6)), Some((7, 8, 9)), false, false, false));
    z.update_display_text("Go".to_string());
    assert_eq!(z.display_text, "Go");
    assert_eq!(z.metadata.display_text.as_deref(), Some("Go"));
    z.update_bounds(Bounds::new(1, 1, 2, 2));
    assert_eq!(z.bounds, Bounds::new(1, 1, 2, 2));
}

#[test]
fn test_zone_style_constructors() {
    let d = ZoneStyle::default();
    assert_eq!((d.fg_color, d.bg_color, d.bold), (None, None, false));
    let s = ZoneStyle::default_selected();
    assert!(s.bold);
}
