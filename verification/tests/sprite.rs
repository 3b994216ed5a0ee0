use gristmill::sprite::{Animation, SpriteSheet};
use gristmill::two::{Rect, Vec2};

fn frame(index: i32) -> Rect {
    Rect::new(index * 16, 0, 16, 32)
}

fn sheet(fps: u32) -> SpriteSheet {
    SpriteSheet::new(
        9,
        Vec2::new(64, 64),
        vec![
            Animation { name: String::from("walk"), frames: vec![frame(0), frame(1), frame(2)] },
            Animation { name: String::from("idle"), frames: vec![frame(3)] },
            Animation { name: String::from("none"), frames: vec![] },
        ],
        fps,
    )
}

#[test]
fn new_sheet_shows_nothing() {
    let sheet = sheet(24);
    assert_eq!(sheet.texture(), 9);
    assert_eq!(sheet.current_frame(), Rect::new(0, 0, 0, 0));
    assert_eq!(sheet.uv_rect(), Rect::new(0, 0, 0, 0));
}

#[test]
fn animation_starts_at_its_first_frame() {
    let mut sheet = sheet(24);
    sheet.set_animation("walk");
    assert_eq!(sheet.current_frame(), frame(0));
    sheet.set_animation_frame(2);
    assert_eq!(sheet.current_frame(), frame(2));
    sheet.set_animation_frame(4);
    assert_eq!(sheet.current_frame(), frame(1));
    sheet.set_animation("idle");
    assert_eq!(sheet.current_frame(), frame(3));
}

#[test]
fn unknown_or_empty_animation_keeps_the_frame() {
    let mut sheet = sheet(24);
    sheet.set_animation("walk");
    sheet.set_animation_frame(1);
    sheet.set_animation("jump");
    assert_eq!(sheet.current_frame(), frame(1));
    sheet.set_animation_frame(2);
    assert_eq!(sheet.current_frame(), frame(1));
    sheet.set_animation("none");
    assert_eq!(sheet.current_frame(), frame(1));
}

#[test]
fn frames_change_when_their_time_is_up() {
    let mut sheet = sheet(10);
    sheet.set_animation("walk");
    sheet.animate(99_999);
    assert_eq!(sheet.current_frame(), frame(0));
    sheet.animate(1);
    assert_eq!(sheet.current_frame(), frame(1));
    sheet.animate(150_000);
    assert_eq!(sheet.current_frame(), frame(2));
    sheet.animate(50_000);
    assert_eq!(sheet.current_frame(), frame(0));
    sheet.animate(250_000);
    assert_eq!(sheet.current_frame(), frame(1));
    sheet.animate(0);
    assert_eq!(sheet.current_frame(), frame(2));
}

#[test]
fn sheet_without_rate_stands_still() {
    let mut sheet = sheet(0);
    sheet.set_animation("walk");
    sheet.animate(u64::MAX - 1);
    assert_eq!(sheet.current_frame(), frame(0));
}

#[test]
fn frame_as_texture_coordinates() {
    let mut sheet = sheet(24);
    sheet.set_animation("walk");
    sheet.set_animation_frame(1);
    assert_eq!(sheet.uv_rect(), Rect::new(16384, 0, 16384, 32768));
    let mut odd = SpriteSheet::new(
        9,
        Vec2::new(3, 3),
        vec![Animation { name: String::from("a"), frames: vec![Rect::new(1, -1, 2, 3)] }],
        24,
    );
    odd.set_animation("a");
    assert_eq!(odd.uv_rect(), Rect::new(21845, -21845, 43690, 65536));
}
