use boxmux::bounds::{Anchor, Bounds};
use boxmux::common::{get_bg_color, get_fg_color, Cell, Config, ScreenBuffer};
use boxmux::position::InputBounds;
use std::collections::hash_map::DefaultHasher;
use std::hash::{Hash, Hasher};

#[test]
fn test_config_new_valid_frame_delay() {
    let config = Config::new(60);
    assert_eq!(config.frame_delay, 60);
}

#[test]
fn test_config_default() {
    let config = Config::default();
    assert_eq!(config.frame_delay, 30);
}

#[test]
fn test_config_validate_valid() {
    let config = Config { frame_delay: 16, locked: false };
    config.validate();
}

#[test]
fn test_config_hash_consistency() {
    let config1 = Config::new(30);
    let config2 = Config::new(30);
    let config3 = Config::new(60);

    let mut hasher1 = DefaultHasher::new();
    let mut hasher2 = DefaultHasher::new();
    let mut hasher3 = DefaultHasher::new();

    config1.hash(&mut hasher1);
    config2.hash(&mut hasher2);
    config3.hash(&mut hasher3);

    assert_eq!(hasher1.finish(), hasher2.finish());
    assert_ne!(hasher1.finish(), hasher3.finish());
}

#[test]
fn test_config_new_with_lock_keeps_lock() {
    let config = Config::new_with_lock(40, true);
    assert_eq!(config.frame_delay, 40);
    assert!(config.locked);
    assert!(!Config::new(40).locked);
}

#[test]
fn test_bounds_new() {
    let bounds = Bounds::new(10, 20, 100, 200);
    assert_eq!(bounds.x1, 10);
    assert_eq!(bounds.y1, 20);
    assert_eq!(bounds.x2, 100);
    assert_eq!(bounds.y2, 200);
}

#[test]
fn test_bounds_validate_valid() {
    let bounds = Bounds::new(10, 20, 100, 200);
    bounds.validate();
}

#[test]
fn test_bounds_width() {
    let bounds = Bounds::new(10, 20, 100, 200);
    assert_eq!(bounds.width(), 90);
}

#[test]
fn test_bounds_height() {
    let bounds = Bounds::new(10, 20, 100, 200);
    assert_eq!(bounds.height(), 180);
}

#[test]
fn test_bounds_width_zero() {
    let bounds = Bounds::new(50, 20, 50, 200);
    assert_eq!(bounds.width(), 0);
}

#[test]
fn test_bounds_height_zero() {
    let bounds = Bounds::new(10, 50, 100, 50);
    assert_eq!(bounds.height(), 0);
}

#[test]
fn test_bounds_width_saturates_when_reversed() {
    let bounds = Bounds::new(100, 50, 10, 40);
    assert_eq!(bounds.width(), 0);
    assert_eq!(bounds.height(), 0);
}

#[test]
fn test_bounds_contains() {
    let bounds = Bounds::new(10, 20, 100, 200);
    assert!(bounds.contains(50, 100));
    assert!(bounds.contains(10, 20));
    assert!(!bounds.contains(100, 200));
    assert!(!bounds.contains(5, 100));
    assert!(!bounds.contains(150, 100));
    assert!(!bounds.contains(50, 10));
    assert!(!bounds.contains(50, 250));
}

#[test]
fn test_bounds_contains_bounds() {
    let outer = Bounds::new(10, 20, 100, 200);
    let inner = Bounds::new(30, 40, 80, 180);
    let overlapping = Bounds::new(5, 15, 50, 100);

    assert!(outer.contains_bounds(&inner));
    assert!(!outer.contains_bounds(&overlapping));
}

#[test]
fn test_bounds_intersects() {
    let bounds1 = Bounds::new(10, 20, 100, 200);
    let bounds2 = Bounds::new(50, 100, 150, 250);
    let bounds3 = Bounds::new(200, 300, 250, 350);

    assert!(bounds1.intersects(&bounds2));
    assert!(!bounds1.intersects(&bounds3));
}

#[test]
fn test_bounds_intersection() {
    let bounds1 = Bounds::new(10, 20, 100, 200);
    let bounds2 = Bounds::new(50, 100, 150, 250);
    let bounds3 = Bounds::new(200, 300, 250, 350);

    let intersection = bounds1.intersection(&bounds2);
    assert!(intersection.is_some());
    let intersection = intersection.unwrap();
    assert_eq!(intersection.x1, 50);
    assert_eq!(intersection.y1, 100);
    assert_eq!(intersection.x2, 100);
    assert_eq!(intersection.y2, 200);

    assert!(bounds1.intersection(&bounds3).is_none());
}

#[test]
fn test_bounds_intersection_with_itself() {
    let b = Bounds::new(3, 4, 9, 12);
    assert_eq!(b.intersection(&b), Some(b));
}

#[test]
fn test_bounds_union() {
    let bounds1 = Bounds::new(10, 20, 100, 200);
    let bounds2 = Bounds::new(50, 100, 150, 250);

    let union = bounds1.union(&bounds2);
    assert_eq!(union.x1, 10);
    assert_eq!(union.y1, 20);
    assert_eq!(union.x2, 150);
    assert_eq!(union.y2, 250);
}

#[test]
fn test_bounds_union_is_commutative() {
    let a = Bounds::new(10, 20, 100, 200);
    let b = Bounds::new(50, 5, 150, 90);
    assert_eq!(a.union(&b), b.union(&a));
}

#[test]
fn test_bounds_translate() {
    let bounds = Bounds::new(10, 20, 100, 200);
    let translated = bounds.translate(5, -10);
    assert_eq!(translated.x1, 15);
    assert_eq!(translated.y1, 10);
    assert_eq!(translated.x2, 105);
    assert_eq!(translated.y2, 190);
}

#[test]
fn test_bounds_translate_round_trip() {
    let bounds = Bounds::new(10, 20, 100, 200);
    assert_eq!(bounds.translate(7, -3).translate(-7, 3), bounds);
}

#[test]
fn test_bounds_center() {
    let bounds = Bounds::new(10, 20, 100, 200);
    let center = bounds.center();
    assert_eq!(center, (55, 110));
}

#[test]
fn test_bounds_center_x() {
    let bounds = Bounds::new(10, 20, 100, 200);
    assert_eq!(bounds.center_x(), 55);
}

#[test]
fn test_bounds_center_y() {
    let bounds = Bounds::new(10, 20, 100, 200);
    assert_eq!(bounds.center_y(), 110);
}

#[test]
fn test_bounds_extend_center() {
    let mut bounds = Bounds::new(50, 50, 100, 100);
    bounds.extend(20, 10, Anchor::Center);
    assert_eq!(bounds.x1, 40);
    assert_eq!(bounds.y1, 45);
    assert_eq!(bounds.x2, 110);
    assert_eq!(bounds.y2, 105);
}

#[test]
fn test_bounds_extend_top_left() {
    let mut bounds = Bounds::new(50, 50, 100, 100);
    bounds.extend(20, 10, Anchor::TopLeft);
    assert_eq!(bounds.x1, 30);
    assert_eq!(bounds.y1, 40);
    assert_eq!(bounds.x2, 100);
    assert_eq!(bounds.y2, 100);
}

#[test]
fn test_bounds_extend_stops_at_zero() {
    let mut bounds = Bounds::new(5, 3, 10, 10);
    bounds.extend(20, 10, Anchor::TopLeft);
    assert_eq!(bounds, Bounds::new(0, 0, 10, 10));
}

#[test]
fn test_bounds_extend_every_anchor() {
    let cases = [
        (Anchor::TopRight, Bounds::new(50, 40, 120, 100)),
        (Anchor::BottomLeft, Bounds::new(30, 50, 100, 110)),
        (Anchor::BottomRight, Bounds::new(50, 50, 120, 110)),
        (Anchor::CenterTop, Bounds::new(40, 40, 110, 100)),
        (Anchor::CenterBottom, Bounds::new(40, 50, 110, 110)),
        (Anchor::CenterLeft, Bounds::new(30, 45, 100, 105)),
        (Anchor::CenterRight, Bounds::new(50, 45, 120, 105)),
    ];
    for (anchor, expected) in cases.iter() {
        let mut bounds = Bounds::new(50, 50, 100, 100);
        bounds.extend(20, 10, *anchor);
        assert_eq!(bounds, *expected);
    }
}

#[test]
fn test_bounds_contract_center() {
    let mut bounds = Bounds::new(50, 50, 100, 100);
    bounds.contract(10, 20, Anchor::Center);
    assert_eq!(bounds.x1, 55);
    assert_eq!(bounds.y1, 60);
    assert_eq!(bounds.x2, 95);
    assert_eq!(bounds.y2, 90);
}

#[test]
fn test_bounds_contract_undoes_extend() {
    for anchor in [Anchor::TopLeft, Anchor::BottomRight, Anchor::Center, Anchor::CenterLeft] {
        let mut bounds = Bounds::new(50, 50, 100, 100);
        bounds.extend(20, 10, anchor);
        bounds.contract(20, 10, anchor);
        assert_eq!(bounds, Bounds::new(50, 50, 100, 100));
    }
}

#[test]
fn test_bounds_move_to() {
    let mut bounds = Bounds::new(10, 20, 60, 70);
    bounds.move_to(100, 150, Anchor::TopLeft);
    assert_eq!(bounds.x1, 100);
    assert_eq!(bounds.y1, 150);
    assert_eq!(bounds.x2, 150);
    assert_eq!(bounds.y2, 200);
}

#[test]
fn test_bounds_move_to_center_and_bottom_right() {
    let mut bounds = Bounds::new(10, 20, 60, 70);
    bounds.move_to(100, 150, Anchor::Center);
    assert_eq!(bounds, Bounds::new(75, 125, 125, 175));
    let mut bounds = Bounds::new(10, 20, 60, 70);
    bounds.move_to(100, 150, Anchor::BottomRight);
    assert_eq!(bounds, Bounds::new(50, 100, 100, 150));
}

#[test]
fn test_bounds_move_by() {
    let mut bounds = Bounds::new(10, 20, 60, 70);
    bounds.move_by(5, -10);
    assert_eq!(bounds.x1, 15);
    assert_eq!(bounds.y1, 10);
    assert_eq!(bounds.x2, 65);
    assert_eq!(bounds.y2, 60);
}

#[test]
fn test_bounds_anchor_points() {
    let bounds = Bounds::new(10, 20, 100, 200);

    assert_eq!(bounds.top_left(), (10, 20));
    assert_eq!(bounds.top_right(), (100, 20));
    assert_eq!(bounds.bottom_left(), (10, 200));
    assert_eq!(bounds.bottom_right(), (100, 200));
    assert_eq!(bounds.center_top(), (55, 20));
    assert_eq!(bounds.center_bottom(), (55, 200));
    assert_eq!(bounds.center_left(), (10, 110));
    assert_eq!(bounds.center_right(), (100, 110));
    assert_eq!(bounds.top(), 20);
    assert_eq!(bounds.bottom(), 200);
    assert_eq!(bounds.left(), 10);
    assert_eq!(bounds.right(), 100);
}

#[test]
fn test_bounds_to_string() {
    let bounds = Bounds::new(10, 20, 100, 200);
    assert_eq!(bounds.to_string(), "(10, 20), (100, 200)");
}

#[test]
fn test_bounds_to_string_zero() {
    assert_eq!(Bounds::new(0, 0, 0, 7).to_string(), "(0, 0), (0, 7)");
}

#[test]
fn test_input_bounds_to_bounds() {
    let input_bounds = InputBounds {
        x1: "25%".to_string(),
        y1: "50%".to_string(),
        x2: "75%".to_string(),
        y2: "100%".to_string(),
    };
    let parent_bounds = Bounds::new(0, 0, 100, 200);
    let bounds = input_bounds.to_bounds(&parent_bounds);

    assert_eq!(bounds.x1, 25);
    assert_eq!(bounds.y1, 100);
    assert_eq!(bounds.x2, 74);
    assert_eq!(bounds.y2, 199);
}

#[test]
fn test_input_bounds_absolute_and_fractional() {
    let input_bounds = InputBounds {
        x1: "3".to_string(),
        y1: "12.5%".to_string(),
        x2: "50.5%".to_string(),
        y2: "0%".to_string(),
    };
    let parent_bounds = Bounds::new(10, 20, 111, 101);
    let bounds = input_bounds.to_bounds(&parent_bounds);
    assert_eq!(bounds, Bounds::new(13, 30, 61, 20));
}

#[test]
fn test_input_bounds_malformed_is_refused() {
    let parent = Bounds::new(0, 0, 100, 100);
    for bad in ["", "%", "abc", "1.%", ".5%", "1.2.3%", "-5", "5%%"] {
        let input_bounds = InputBounds {
            x1: bad.to_string(),
            y1: "0".to_string(),
            x2: "1".to_string(),
            y2: "1".to_string(),
        };
        assert!(input_bounds.try_to_bounds(&parent).is_none(), "{}", bad);
    }
}

#[test]
fn test_anchor_default() {
    let anchor = Anchor::default();
    assert_eq!(anchor, Anchor::Center);
}

#[test]
fn test_screenbuffer_new() {
    let screen_buffer = ScreenBuffer::new_custom(5, 5);
    assert_eq!(screen_buffer.width, 5);
    assert_eq!(screen_buffer.height, 5);
    assert_eq!(screen_buffer.buffer.len(), 5);
    assert_eq!(screen_buffer.buffer[0].len(), 5);
}

#[test]
fn test_screenbuffer_clear() {
    let mut screen_buffer = ScreenBuffer::new_custom(5, 5);
    let test_cell = Cell {
        fg_color: String::from("red"),
        bg_color: String::from("blue"),
        ch: 'X',
    };
    screen_buffer.update(2, 2, test_cell.clone());
    screen_buffer.clear();
    for row in screen_buffer.buffer.iter() {
        for cell in row.iter() {
            assert_eq!(cell.fg_color, get_fg_color("white"));
            assert_eq!(cell.bg_color, get_bg_color("black"));
            assert_eq!(cell.ch, ' ');
        }
    }
}

#[test]
fn test_screenbuffer_update() {
    let mut screen_buffer = ScreenBuffer::new_custom(5, 5);
    let test_cell = Cell {
        fg_color: String::from("red"),
        bg_color: String::from("blue"),
        ch: 'X',
    };
    screen_buffer.update(2, 2, test_cell.clone());
    assert_eq!(screen_buffer.get(2, 2).unwrap(), &test_cell);
}

#[test]
fn test_screenbuffer_get() {
    let screen_buffer = ScreenBuffer::new_custom(5, 5);
    assert!(screen_buffer.get(6, 6).is_none());
    assert!(screen_buffer.get(3, 3).is_some());
}

#[test]
fn test_screenbuffer_update_out_of_bounds() {
    let mut screen_buffer = ScreenBuffer::new_custom(5, 5);
    let test_cell = Cell {
        fg_color: String::from("red"),
        bg_color: String::from("blue"),
        ch: 'X',
    };
    screen_buffer.update(10, 10, test_cell);
    assert!(screen_buffer.get(10, 10).is_none());
}

#[test]
fn test_screenbuffer_resize() {
    let mut screen_buffer = ScreenBuffer::new_custom(5, 5);
    screen_buffer.resize(10, 8);
    assert_eq!(screen_buffer.width, 10);
    assert_eq!(screen_buffer.height, 8);
    assert_eq!(screen_buffer.buffer.len(), 8);
    assert_eq!(screen_buffer.buffer[0].len(), 10);
}

#[test]
fn test_screenbuffer_resize_shrink() {
    let mut screen_buffer = ScreenBuffer::new_custom(10, 10);
    screen_buffer.resize(5, 5);
    assert_eq!(screen_buffer.width, 5);
    assert_eq!(screen_buffer.height, 5);
    assert_eq!(screen_buffer.buffer.len(), 5);
    assert_eq!(screen_buffer.buffer[0].len(), 5);
}

#[test]
fn test_screenbuffer_resize_keeps_cells() {
    let mut screen_buffer = ScreenBuffer::new_custom(4, 3);
    let cell = Cell { fg_color: "a".to_string(), bg_color: "b".to_string(), ch: 'Z' };
    screen_buffer.update(1, 2, cell.clone());
    screen_buffer.resize(6, 5);
    assert_eq!(screen_buffer.get(1, 2).unwrap(), &cell);
    assert_eq!(screen_buffer.get(5, 4).unwrap().ch, ' ');
    assert!(screen_buffer.buffer.iter().all(|r| r.len() == 6));
    screen_buffer.resize(2, 3);
    assert!(screen_buffer.get(1, 2).is_some());
    assert_eq!(screen_buffer.get(1, 2).unwrap(), &cell);
}

#[test]
fn test_color_codes() {
    assert_eq!(get_fg_color("white"), "\u{1b}[38;5;7m");
    assert_eq!(get_bg_color("black"), "\u{1b}[48;5;0m");
    assert_eq!(get_fg_color("bright_cyan"), "\u{1b}[38;5;14m");
    assert_eq!(get_fg_color("no-such-color"), "\u{1b}[39m");
    assert_eq!(get_bg_color("no-such-color"), "\u{1b}[49m");
}

#[test]
fn test_cell_clone_and_eq() {
    let cell1 = Cell {
        fg_color: "red".to_string(),
        bg_color: "blue".to_string(),
        ch: 'X',
    };
    let cell2 = cell1.clone();
    assert_eq!(cell1, cell2);

    let cell3 = Cell {
        fg_color: "green".to_string(),
        bg_color: "blue".to_string(),
        ch: 'X',
    };
    assert_ne!(cell1, cell3);
}

#[test]
fn test_bounds_validation_error_messages() {
    assert_eq!(
        Bounds::new(100, 20, 50, 200).validation_error(),
        Some("Validation error: x1 (100) is greater than x2 (50)".to_string())
    );
    assert_eq!(
        Bounds::new(10, 200, 100, 100).validation_error(),
        Some("Validation error: y1 (200) is greater than y2 (100)".to_string())
    );
    assert_eq!(Bounds::new(10, 20, 100, 200).validation_error(), None);
}

#[test]
fn test_config_validation_error_message() {
    assert_eq!(
        Config { frame_delay: 0, locked: false }.validation_error(),
        Some("Validation error: frame_delay cannot be 0".to_string())
    );
    assert_eq!(Config { frame_delay: 16, locked: false }.validation_error(), None);
}
