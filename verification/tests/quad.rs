use gristmill::cell::{Arena, Obj};
use gristmill::color::Color;
use gristmill::quad::{
    BrushOutcome, DrawCall, GlyphVertex, InstanceRange, Quad, QuadRenderer, RenderList, RenderQuad,
    TextAction, UV_ONE,
};
use gristmill::two::{Rect, Vec2};

const WHITE_PIXEL: u64 = 1;
const ATLAS: u64 = 2;
const A: u64 = 10;
const B: u64 = 11;

fn renderer(pixel_perfect: bool) -> QuadRenderer {
    let mut renderer = QuadRenderer::new(WHITE_PIXEL, ATLAS, pixel_perfect);
    renderer.set_screen_size(800 * 64, 600 * 64);
    renderer
}

fn pixel() -> Rect {
    Rect::new(0, 0, 64, 64)
}

fn whole() -> Rect {
    Rect::new(0, 0, UV_ONE, UV_ONE)
}

fn glyph(x: i32, layer: usize) -> GlyphVertex {
    GlyphVertex {
        quad: Quad { rect: Rect::new(x, 0, 640, 640), uv: whole(), color: Color::white() },
        layer,
    }
}

#[test]
fn new_renderer_starts_an_empty_frame() {
    let renderer = QuadRenderer::new(WHITE_PIXEL, ATLAS, true);
    assert_eq!(renderer.scale(), 64);
    assert_eq!(renderer.scroll_offset(), Vec2::new(0, 0));
    assert_eq!(renderer.glyph_texture(), ATLAS);
    assert!(renderer.instances().is_empty());
    assert!(renderer.instance_ranges().is_empty());
}

#[test]
fn default_quad_is_white_and_scrolls() {
    let quad = RenderQuad::default();
    assert_eq!(quad.texture, None);
    assert_eq!(quad.color, Color::new(255, 255, 255, 255));
    assert_eq!(quad.rect, Rect::new(0, 0, 0, 0));
    assert_eq!(quad.uv_rect, Rect::new(0, 0, UV_ONE, UV_ONE));
    assert!(!quad.flip_x);
    assert!(!quad.flip_y);
    assert!(quad.scroll);
}

#[test]
fn runs_are_not_merged_across_another_texture() {
    let mut renderer = renderer(true);
    renderer.queue_texture(pixel(), A);
    renderer.queue_texture(pixel(), A);
    renderer.queue_texture(pixel(), B);
    renderer.queue_texture(pixel(), A);
    assert_eq!(
        renderer.instance_ranges(),
        &vec![
            InstanceRange::Instances { texture: A, start: 0, end: 2 },
            InstanceRange::Instances { texture: B, start: 2, end: 3 },
            InstanceRange::Instances { texture: A, start: 3, end: 4 },
        ]
    );
    assert_eq!(renderer.instances().len(), 4);
}

#[test]
fn plain_quads_share_the_white_pixel() {
    let mut renderer = renderer(true);
    renderer.queue_color(pixel(), Color::new(1, 2, 3, 4));
    renderer.queue_rect(Vec2::new(0, 0), Vec2::new(64, 64), Color::new(5, 6, 7, 8));
    assert_eq!(
        renderer.instance_ranges(),
        &vec![InstanceRange::Instances { texture: WHITE_PIXEL, start: 0, end: 2 }]
    );
    assert_eq!(renderer.instances()[0].color, Color::new(1, 2, 3, 4));
    assert_eq!(renderer.instances()[1].color, Color::new(5, 6, 7, 8));
}

#[test]
fn quad_outside_the_screen_is_dropped() {
    let mut renderer = renderer(true);
    renderer.queue_texture(pixel(), A);
    renderer.queue_texture(Rect::new(900 * 64, 0, 64, 64), A);
    renderer.queue_texture(Rect::new(0, 600 * 64, 64, 64), A);
    renderer.queue_texture(Rect::new(-128, 0, 64, 64), A);
    renderer.queue_texture(Rect::new(0, -6400, 64, 64), B);
    assert_eq!(renderer.instances().len(), 1);
    assert_eq!(
        renderer.instance_ranges(),
        &vec![InstanceRange::Instances { texture: A, start: 0, end: 1 }]
    );
}

#[test]
fn quad_that_ends_at_the_screen_edge_is_dropped() {
    let mut renderer = renderer(false);
    renderer.queue_texture(Rect::new(-64, 0, 64, 64), A);
    renderer.queue_texture(Rect::new(0, -64, 64, 64), A);
    assert_eq!(renderer.instances().len(), 0);
    renderer.queue_texture(Rect::new(-64, 0, 65, 64), A);
    assert_eq!(renderer.instances().len(), 1);
    renderer.queue_texture(Rect::new(800 * 64 - 1, 600 * 64 - 1, 64, 64), A);
    assert_eq!(renderer.instances().len(), 2);
    renderer.queue_texture(Rect::new(800 * 64, 0, 64, 64), A);
    assert_eq!(renderer.instances().len(), 2);
}

#[test]
fn quad_without_extent_is_dropped() {
    let mut renderer = renderer(true);
    renderer.queue_texture(Rect::new(0, 0, 0, 64), A);
    renderer.queue_texture(Rect::new(0, 0, 64, -64), A);
    renderer.queue_texture(Rect::new(0, 0, 63, 64), A);
    assert_eq!(renderer.instances().len(), 0);
    assert!(renderer.instance_ranges().is_empty());
}

#[test]
fn pixel_perfect_rounds_position_and_floors_size() {
    let mut renderer = renderer(true);
    renderer.queue_texture(Rect::new(96, 100, 100, 130), A);
    renderer.queue_texture(Rect::new(31, 32, 64, 64), A);
    assert_eq!(renderer.instances()[0].rect, Rect::new(128, 128, 64, 128));
    assert_eq!(renderer.instances()[1].rect, Rect::new(0, 64, 64, 64));
}

#[test]
fn quads_are_scaled() {
    let mut renderer = renderer(false);
    renderer.set_scale(96);
    renderer.queue_texture(Rect::new(64, 64, 64, 65), A);
    assert_eq!(renderer.instances()[0].rect, Rect::new(96, 96, 96, 97));
    let mut snapped = self::renderer(true);
    snapped.set_scale(96);
    snapped.queue_texture(Rect::new(64, 64, 64, 65), A);
    assert_eq!(snapped.instances()[0].rect, Rect::new(128, 128, 64, 64));
}

#[test]
fn scroll_moves_quads_that_scroll() {
    let mut renderer = renderer(false);
    renderer.set_scroll_offset(Vec2::new(64, 128));
    renderer.queue_color(Rect::new(128, 128, 64, 64), Color::white());
    renderer.queue_rect(Vec2::new(128, 128), Vec2::new(64, 64), Color::white());
    assert_eq!(renderer.instances()[0].rect, Rect::new(64, 0, 64, 64));
    assert_eq!(renderer.instances()[1].rect, Rect::new(128, 128, 64, 64));
}

#[test]
fn pixel_perfect_scroll_is_rounded() {
    let mut renderer = renderer(true);
    renderer.set_scroll_offset(Vec2::new(33, -33));
    assert_eq!(renderer.scroll_offset(), Vec2::new(64, -64));
    renderer.set_scroll_offset(Vec2::new(31, -31));
    assert_eq!(renderer.scroll_offset(), Vec2::new(0, 0));
    let mut smooth = self::renderer(false);
    smooth.set_scroll_offset(Vec2::new(33, -33));
    assert_eq!(smooth.scroll_offset(), Vec2::new(33, -33));
}

#[test]
fn flipped_quads_run_backwards_over_the_texture() {
    let mut renderer = renderer(true);
    let uv = Rect::new(100, 200, 300, 400);
    renderer.queue(RenderQuad {
        texture: Some(A),
        rect: pixel(),
        uv_rect: uv,
        flip_x: true,
        ..RenderQuad::default()
    });
    renderer.queue(RenderQuad {
        texture: Some(A),
        rect: pixel(),
        uv_rect: uv,
        flip_y: true,
        ..RenderQuad::default()
    });
    renderer.queue(RenderQuad { texture: Some(A), rect: pixel(), uv_rect: uv, ..RenderQuad::default() });
    assert_eq!(renderer.instances()[0].uv, Rect::new(400, 200, -300, 400));
    assert_eq!(renderer.instances()[1].uv, Rect::new(100, 600, 300, -400));
    assert_eq!(renderer.instances()[2].uv, uv);
}

#[test]
fn text_that_follows_text_shares_a_layer() {
    let mut renderer = renderer(true);
    assert_eq!(renderer.queue_text(), 0);
    assert_eq!(renderer.queue_text(), 0);
    renderer.queue_texture(pixel(), A);
    assert_eq!(renderer.queue_text(), 1);
    assert_eq!(renderer.queue_text(), 1);
    renderer.queue_texture(pixel(), A);
    renderer.queue_texture(pixel(), A);
    assert_eq!(renderer.queue_text(), 2);
    assert_eq!(
        renderer.instance_ranges(),
        &vec![
            InstanceRange::Text { layer: 0 },
            InstanceRange::Instances { texture: A, start: 0, end: 1 },
            InstanceRange::Text { layer: 1 },
            InstanceRange::Instances { texture: A, start: 1, end: 3 },
            InstanceRange::Text { layer: 2 },
        ]
    );
}

#[test]
fn text_after_a_quad_opens_a_new_layer() {
    let mut renderer = renderer(true);
    renderer.queue_texture(pixel(), A);
    assert_eq!(renderer.queue_text(), 1);
    assert_eq!(
        renderer.instance_ranges(),
        &vec![
            InstanceRange::Instances { texture: A, start: 0, end: 1 },
            InstanceRange::Text { layer: 1 },
        ]
    );
}

#[test]
fn dropped_quad_does_not_close_the_layer() {
    let mut renderer = renderer(true);
    assert_eq!(renderer.queue_text(), 0);
    renderer.queue_texture(Rect::new(900 * 64, 0, 64, 64), A);
    assert_eq!(renderer.queue_text(), 0);
    assert_eq!(renderer.instance_ranges(), &vec![InstanceRange::Text { layer: 0 }]);
}

#[test]
fn text_between_runs_of_one_texture_keeps_them_apart() {
    let mut renderer = renderer(true);
    renderer.queue_texture(pixel(), A);
    renderer.queue_text();
    renderer.queue_texture(pixel(), A);
    assert_eq!(
        renderer.instance_ranges(),
        &vec![
            InstanceRange::Instances { texture: A, start: 0, end: 1 },
            InstanceRange::Text { layer: 1 },
            InstanceRange::Instances { texture: A, start: 1, end: 2 },
        ]
    );
}

#[test]
fn render_issues_one_call_for_each_range_in_order() {
    let mut renderer = renderer(true);
    renderer.queue_texture(Rect::new(0, 0, 64, 64), A);
    renderer.queue_texture(Rect::new(64, 0, 64, 64), A);
    renderer.queue_text();
    renderer.queue_texture(Rect::new(128, 0, 64, 64), B);
    renderer.queue_text();
    let first = renderer.instances()[0];
    let second = renderer.instances()[1];
    let third = renderer.instances()[2];
    let action = renderer.process_queued_text(BrushOutcome::Draw(vec![
        glyph(0, 1),
        glyph(64, 2),
        glyph(128, 1),
    ]));
    assert_eq!(action, TextAction::Ready);
    let calls = renderer.render();
    assert_eq!(
        calls,
        vec![
            DrawCall { texture: A, mask: WHITE_PIXEL, instances: vec![first, second] },
            DrawCall {
                texture: WHITE_PIXEL,
                mask: ATLAS,
                instances: vec![glyph(0, 1).quad, glyph(128, 1).quad],
            },
            DrawCall { texture: B, mask: WHITE_PIXEL, instances: vec![third] },
            DrawCall { texture: WHITE_PIXEL, mask: ATLAS, instances: vec![glyph(64, 2).quad] },
        ]
    );
}

#[test]
fn render_starts_the_next_frame() {
    let mut renderer = renderer(true);
    renderer.queue_texture(pixel(), A);
    renderer.queue_text();
    renderer.process_queued_text(BrushOutcome::Draw(vec![glyph(0, 1)]));
    assert_eq!(renderer.render().len(), 2);
    assert!(renderer.instances().is_empty());
    assert!(renderer.instance_ranges().is_empty());
    assert_eq!(renderer.queue_text(), 0);
    assert_eq!(renderer.render().len(), 1);
    assert_eq!(renderer.render(), Vec::<DrawCall>::new());
}

#[test]
fn text_layer_without_glyphs_draws_nothing() {
    let mut renderer = renderer(true);
    renderer.queue_text();
    let calls = renderer.render();
    assert_eq!(calls, vec![DrawCall { texture: WHITE_PIXEL, mask: ATLAS, instances: vec![] }]);
}

#[test]
fn small_atlas_is_resized_until_it_fits() {
    let mut renderer = renderer(true);
    renderer.queue_text();
    let mut resizes = 0;
    let mut answers = vec![
        BrushOutcome::Draw(vec![glyph(0, 0)]),
        BrushOutcome::TextureTooSmall { suggested_width: 1024, suggested_height: 1024 },
        BrushOutcome::TextureTooSmall { suggested_width: 512, suggested_height: 512 },
    ];
    let mut sizes = Vec::new();
    loop {
        let answer = answers.pop().unwrap();
        match renderer.process_queued_text(answer) {
            TextAction::Resize { width, height } => {
                resizes += 1;
                sizes.push((width, height));
                renderer.set_glyph_texture(ATLAS + resizes);
            }
            TextAction::Ready => break,
        }
    }
    assert_eq!(resizes, 2);
    assert_eq!(sizes, vec![(512, 512), (1024, 1024)]);
    assert_eq!(renderer.glyph_texture(), ATLAS + 2);
    let calls = renderer.render();
    assert_eq!(
        calls,
        vec![DrawCall { texture: WHITE_PIXEL, mask: ATLAS + 2, instances: vec![glyph(0, 0).quad] }]
    );

    renderer.queue_text();
    assert_eq!(renderer.process_queued_text(BrushOutcome::ReDraw), TextAction::Ready);
    assert_eq!(renderer.glyph_texture(), ATLAS + 2);
    let calls = renderer.render();
    assert_eq!(
        calls,
        vec![DrawCall { texture: WHITE_PIXEL, mask: ATLAS + 2, instances: vec![glyph(0, 0).quad] }]
    );
}

#[test]
fn new_glyphs_replace_the_old() {
    let mut renderer = renderer(true);
    renderer.process_queued_text(BrushOutcome::Draw(vec![glyph(0, 0), glyph(64, 0)]));
    renderer.process_queued_text(BrushOutcome::Draw(vec![glyph(128, 0)]));
    renderer.queue_text();
    let calls = renderer.render();
    assert_eq!(calls[0].instances, vec![glyph(128, 0).quad]);
}

#[test]
fn list_draws_what_lives_and_forgets_the_rest() {
    let mut arena: Arena<RenderQuad> = Arena::new();
    let quad = |texture: u64| RenderQuad {
        texture: Some(texture),
        rect: pixel(),
        ..RenderQuad::default()
    };
    let first = Obj::new(&mut arena, quad(A));
    let second = Obj::new(&mut arena, quad(B));
    let third = Obj::new(&mut arena, quad(A));
    let mut list = RenderList::new();
    list.add(first.downgrade());
    list.add(second.downgrade());
    list.add(third.downgrade());
    let mut renderer = renderer(true);
    renderer.queue_all(&arena, &mut list);
    assert_eq!(list.items.len(), 3);
    assert_eq!(
        renderer.instance_ranges(),
        &vec![
            InstanceRange::Instances { texture: A, start: 0, end: 1 },
            InstanceRange::Instances { texture: B, start: 1, end: 2 },
            InstanceRange::Instances { texture: A, start: 2, end: 3 },
        ]
    );
    renderer.render();
    second.drop(&mut arena);
    renderer.queue_all(&arena, &mut list);
    assert_eq!(list.items.len(), 2);
    assert!(list.items[0].same(&first.downgrade()));
    assert!(list.items[1].same(&third.downgrade()));
    assert_eq!(
        renderer.instance_ranges(),
        &vec![InstanceRange::Instances { texture: A, start: 0, end: 2 }]
    );
}
