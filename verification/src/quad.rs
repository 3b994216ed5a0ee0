//! The quad batcher.
//!
//! Quads and runs of text are queued in paint order during a frame. The
//! batcher places each quad on the screen, drops what cannot be seen, and
//! keeps an ordered list of ranges: runs of quads that share a texture, and
//! layers of text. `render` turns the list into one draw call per range and
//! starts the next frame.

use vstd::prelude::*;
use crate::cell::{Arena, WeakObj};
use crate::color::Color;
use crate::two::{Rect, Vec2};
use crate::units::{
    sat, scaled, round_px, floor_px, saturate, sat_add, scale, round_to_pixel, floor_to_pixel,
};

verus! {

/// Handle of a texture of the graphics backend.
pub type TextureId = u64;

/// One in texture coordinates: the far edge of a texture.
pub const UV_ONE: i32 = 0x1_0000;

/// One placed instance: where it lies on the screen, in units, which part of
/// the texture it shows, in parts of [`UV_ONE`], and its tint.
#[derive(Clone, Copy, PartialEq, Eq, Debug, Structural)]
pub struct Quad {
    pub rect: Rect,
    pub uv: Rect,
    pub color: Color,
}

/// A quad as it is asked for.
#[derive(Clone, Copy, PartialEq, Eq, Debug)]
pub struct RenderQuad {
    /// The texture, or none for a plain colour.
    pub texture: Option<TextureId>,
    pub color: Color,
    pub rect: Rect,
    pub uv_rect: Rect,
    pub flip_x: bool,
    pub flip_y: bool,
    /// Whether the quad moves with the scroll offset.
    pub scroll: bool,
}

impl Default for RenderQuad {
    /// A white quad without extent that shows a whole texture and scrolls.
    fn default() -> (quad: RenderQuad)
        ensures
            quad.texture is None,
            quad.color == Color::white(),
            quad.rect == (Rect { position: Vec2 { x: 0, y: 0 }, size: Vec2 { x: 0, y: 0 } }),
            quad.uv_rect == (Rect {
                position: Vec2 { x: 0, y: 0 },
                size: Vec2 { x: UV_ONE, y: UV_ONE },
            }),
            !quad.flip_x,
            !quad.flip_y,
            quad.scroll,
    {
        RenderQuad {
            texture: None,
            color: Color::white(),
            rect: Rect::zero(),
            uv_rect: Rect::new(0, 0, UV_ONE, UV_ONE),
            flip_x: false,
            flip_y: false,
            scroll: true,
        }
    }
}

/// The depth key of text. Runs of text that follow one another share a
/// layer; a quad in between closes the layer, and the next text opens a new
/// one.
#[derive(Clone, Copy, Debug)]
struct GlyphLayer {
    layer: usize,
    combine: bool,
}

impl GlyphLayer {
    fn new() -> (glyph_layer: GlyphLayer)
        ensures
            glyph_layer.layer == 0,
            glyph_layer.combine,
    {
        GlyphLayer { layer: 0, combine: true }
    }

    fn next(&mut self) -> (layer: usize)
        requires
            old(self).combine || old(self).layer < usize::MAX,
        ensures
            layer == next_layer(old(self).layer as nat, old(self).combine),
            final(self).layer == layer,
            final(self).combine,
    {
        if !self.combine {
            self.layer = self.layer + 1;
            self.combine = true;
        }
        self.layer
    }

    fn finish(&mut self)
        ensures
            final(self).layer == old(self).layer,
            !final(self).combine,
    {
        self.combine = false;
    }

    fn reset(&mut self)
        ensures
            final(self).layer == 0,
            final(self).combine,
    {
        self.combine = true;
        self.layer = 0;
    }
}

/// The layer that the next text goes to.
pub open spec fn next_layer(layer: nat, combine: bool) -> nat {
    if combine {
        layer
    } else {
        layer + 1
    }
}

/// One entry of the paint order: quads `start..end` of the frame, which
/// share a texture, or a layer of text.
#[derive(Clone, Copy, PartialEq, Eq, Debug, Structural)]
pub enum InstanceRange {
    Instances { texture: TextureId, start: usize, end: usize },
    Text { layer: usize },
}

/// A glyph as the text engine hands it out: its quad and the layer that its
/// text was queued with.
#[derive(Clone, Copy, PartialEq, Eq, Debug, Structural)]
pub struct GlyphVertex {
    pub quad: Quad,
    pub layer: usize,
}

/// What the text engine answers when it is asked to process its queue.
#[derive(Clone, PartialEq, Eq, Debug)]
pub enum BrushOutcome {
    /// The glyphs have changed; these are the new ones.
    Draw(Vec<GlyphVertex>),
    /// The glyphs are those of the frame before.
    ReDraw,
    /// The atlas cannot hold the glyphs; one of the suggested size might.
    TextureTooSmall { suggested_width: u32, suggested_height: u32 },
}

/// What has to happen after the text engine has answered.
#[derive(Clone, Copy, PartialEq, Eq, Debug, Structural)]
pub enum TextAction {
    /// A new atlas of this size has to be made, and the queue processed again.
    Resize { width: u32, height: u32 },
    /// The glyphs of the frame are at hand.
    Ready,
}

/// One instanced draw: the two textures to bind and the instances to upload.
#[derive(Clone, PartialEq, Eq, Debug)]
pub struct DrawCall {
    pub texture: TextureId,
    pub mask: TextureId,
    pub instances: Vec<Quad>,
}

/// Something that draws itself with quads and text.
pub trait Renderable {
    /// The batcher after the thing has drawn itself: what it queues, and in
    /// which order.
    spec fn drawn(&self, view: QuadRendererView) -> QuadRendererView;

    fn render(&self, renderer: &mut QuadRenderer)
        requires
            old(renderer).wf(),
        ensures
            final(renderer).wf(),
            final(renderer)@ == self.drawn(old(renderer)@),
    ;
}

impl Renderable for RenderQuad {
    /// A quad draws itself by queuing itself.
    open spec fn drawn(&self, view: QuadRendererView) -> QuadRendererView {
        view.queued(*self)
    }

    fn render(&self, renderer: &mut QuadRenderer) {
        renderer.queue(*self);
    }
}

/// The things to draw, held weakly.
pub struct RenderList {
    pub items: Vec<WeakObj>,
}

impl RenderList {
    pub fn new() -> (list: RenderList)
        ensures
            list.items@ == Seq::<WeakObj>::empty(),
    {
        RenderList { items: Vec::new() }
    }

    pub fn add(&mut self, renderable: WeakObj)
        ensures
            final(self).items@ == old(self).items@.push(renderable),
    {
        self.items.push(renderable);
    }
}

/// Those among the first `upto` items whose objects still exist, in their
/// order.
pub open spec fn living<T>(items: Seq<WeakObj>, arena: Arena<T>, upto: int) -> Seq<WeakObj>
    decreases upto,
{
    if upto <= 0 {
        Seq::empty()
    } else if arena.alive(items[upto - 1]@) {
        living(items, arena, upto - 1).push(items[upto - 1])
    } else {
        living(items, arena, upto - 1)
    }
}

/// The batcher after those among the first `upto` items whose objects still
/// exist have drawn themselves, one after the other in their order.
pub open spec fn drawn_all<T: Renderable>(
    view: QuadRendererView,
    items: Seq<WeakObj>,
    arena: Arena<T>,
    upto: int,
) -> QuadRendererView
    decreases upto,
{
    if upto <= 0 {
        view
    } else if arena.alive(items[upto - 1]@) {
        arena.cell(items[upto - 1]@).inner().drawn(drawn_all(view, items, arena, upto - 1))
    } else {
        drawn_all(view, items, arena, upto - 1)
    }
}

/// A rectangle scaled and, for pixel-perfect output, snapped: the position
/// to the nearest pixel, the size down to whole pixels.
pub open spec fn transformed(rect: Rect, factor: i32, pixel_perfect: bool) -> Rect {
    let x = sat(scaled(rect.position.x as int, factor as int));
    let y = sat(scaled(rect.position.y as int, factor as int));
    let width = sat(scaled(rect.size.x as int, factor as int));
    let height = sat(scaled(rect.size.y as int, factor as int));
    if pixel_perfect {
        Rect {
            position: Vec2 { x: sat(round_px(x)) as i32, y: sat(round_px(y)) as i32 },
            size: Vec2 { x: floor_px(width) as i32, y: floor_px(height) as i32 },
        }
    } else {
        Rect {
            position: Vec2 { x: x as i32, y: y as i32 },
            size: Vec2 { x: width as i32, y: height as i32 },
        }
    }
}

/// Whether a rectangle and the screen `[0, screen)` have a point in common.
pub open spec fn visible(rect: Rect, screen: Vec2) -> bool {
    &&& rect.position.x + rect.size.x > 0
    &&& rect.position.y + rect.size.y > 0
    &&& rect.position.x < screen.x
    &&& rect.position.y < screen.y
}

/// Texture coordinates mirrored along the chosen axes: a flipped axis starts
/// at the far edge and runs backwards.
pub open spec fn flipped(uv: Rect, flip_x: bool, flip_y: bool) -> Rect {
    Rect {
        position: Vec2 {
            x: if flip_x {
                sat(uv.position.x + uv.size.x) as i32
            } else {
                uv.position.x
            },
            y: if flip_y {
                sat(uv.position.y + uv.size.y) as i32
            } else {
                uv.position.y
            },
        },
        size: Vec2 {
            x: if flip_x {
                sat(-uv.size.x) as i32
            } else {
                uv.size.x
            },
            y: if flip_y {
                sat(-uv.size.y) as i32
            } else {
                uv.size.y
            },
        },
    }
}

/// The ranges after one more quad with the given texture was appended, so
/// that the frame holds `end` quads: the last range grows if it is a run of
/// the same texture, else a new run of one quad starts.
pub open spec fn extended(ranges: Seq<InstanceRange>, texture: TextureId, end: usize) -> Seq<
    InstanceRange,
> {
    if ranges.len() > 0 && ranges.last() is Instances && ranges.last()->texture == texture {
        ranges.drop_last().push(
            InstanceRange::Instances { texture, start: ranges.last()->start, end },
        )
    } else {
        ranges.push(InstanceRange::Instances { texture, start: (end - 1) as usize, end })
    }
}

/// The ranges after text was queued on `layer`: a text range opens unless
/// the last range is one already.
pub open spec fn with_text(ranges: Seq<InstanceRange>, layer: usize) -> Seq<InstanceRange> {
    if ranges.len() > 0 && ranges.last() is Text {
        ranges
    } else {
        ranges.push(InstanceRange::Text { layer })
    }
}

/// How many quads the runs among the first `upto` ranges cover.
pub open spec fn covered(ranges: Seq<InstanceRange>, upto: int) -> int
    decreases upto,
{
    if upto <= 0 {
        0
    } else if ranges[upto - 1] is Instances {
        ranges[upto - 1]->end as int
    } else {
        covered(ranges, upto - 1)
    }
}

/// The quads of the glyphs on `layer` among the first `upto` vertices, in
/// their order.
pub open spec fn layer_quads(vertices: Seq<GlyphVertex>, layer: usize, upto: int) -> Seq<Quad>
    decreases upto,
{
    if upto <= 0 {
        Seq::empty()
    } else if vertices[upto - 1].layer == layer {
        layer_quads(vertices, layer, upto - 1).push(vertices[upto - 1].quad)
    } else {
        layer_quads(vertices, layer, upto - 1)
    }
}

/// The mathematical content of a [`QuadRenderer`].
pub struct QuadRendererView {
    pub pixel_perfect: bool,
    /// The quads of the frame, in paint order.
    pub instances: Seq<Quad>,
    /// The paint order of the frame.
    pub ranges: Seq<InstanceRange>,
    pub screen_size: Vec2,
    pub scroll_offset: Vec2,
    /// The scale factor in units: 64 leaves lengths as they are.
    pub scale: i32,
    /// The texture that is bound where none is asked for.
    pub white_pixel: TextureId,
    /// The atlas that holds the glyphs.
    pub glyph_texture: TextureId,
    /// The layer of the text queued last.
    pub layer: nat,
    /// Whether the next text joins that layer.
    pub combine: bool,
    /// The glyphs that the text engine handed out last.
    pub glyphs: Seq<GlyphVertex>,
}

impl QuadRendererView {
    /// The texture that a quad is drawn with.
    pub open spec fn texture_of(self, quad: RenderQuad) -> TextureId {
        match quad.texture {
            Some(texture) => texture,
            None => self.white_pixel,
        }
    }

    /// Where a quad comes to lie, or `None` if it is not drawn: a quad
    /// without extent, or one that has no point in common with the screen.
    pub open spec fn placed(self, quad: RenderQuad) -> Option<Quad> {
        let rect = transformed(quad.rect, self.scale, self.pixel_perfect);
        let at = if quad.scroll {
            Rect { position: rect.position.minus(self.scroll_offset), size: rect.size }
        } else {
            rect
        };
        if rect.size.x <= 0 || rect.size.y <= 0 || !visible(at, self.screen_size) {
            None
        } else {
            Some(
                Quad { rect: at, uv: flipped(quad.uv_rect, quad.flip_x, quad.flip_y), color: quad.color },
            )
        }
    }

    /// The view after `quad` was queued.
    pub open spec fn queued(self, quad: RenderQuad) -> QuadRendererView {
        match self.placed(quad) {
            Some(placed) => QuadRendererView {
                instances: self.instances.push(placed),
                ranges: extended(
                    self.ranges,
                    self.texture_of(quad),
                    (self.instances.len() + 1) as usize,
                ),
                combine: false,
                ..self
            },
            None => self,
        }
    }

    /// The view after a run of text was queued.
    pub open spec fn queued_text(self) -> QuadRendererView {
        let layer = next_layer(self.layer, self.combine);
        QuadRendererView {
            ranges: with_text(self.ranges, layer as usize),
            layer,
            combine: true,
            ..self
        }
    }

    /// The view after the text engine has answered: new glyphs replace
    /// those at hand, any other answer leaves all as it is.
    pub open spec fn answered(self, outcome: BrushOutcome) -> QuadRendererView {
        match outcome {
            BrushOutcome::Draw(vertices) => QuadRendererView { glyphs: vertices@, ..self },
            _ => self,
        }
    }

    /// The view at the start of the next frame: nothing queued, the first
    /// layer open; the atlas and the glyphs stay.
    pub open spec fn flushed(self) -> QuadRendererView {
        QuadRendererView {
            instances: Seq::empty(),
            ranges: Seq::empty(),
            layer: 0,
            combine: true,
            ..self
        }
    }

    /// The draw call that range `i` stands for: a run of quads is drawn with
    /// its texture and the blank mask, a layer of text with the blank
    /// texture and the atlas as mask.
    pub open spec fn draws(self, i: int, call: DrawCall) -> bool {
        match self.ranges[i] {
            InstanceRange::Instances { texture, start, end } => {
                &&& call.texture == texture
                &&& call.mask == self.white_pixel
                &&& call.instances@ == self.instances.subrange(start as int, end as int)
            },
            InstanceRange::Text { layer } => {
                &&& call.texture == self.white_pixel
                &&& call.mask == self.glyph_texture
                &&& call.instances@ == layer_quads(self.glyphs, layer, self.glyphs.len() as int)
            },
        }
    }

    /// The runs tile the quads of the frame in order, neighbouring runs
    /// differ in texture, no two text ranges touch, and the layers of the
    /// text ranges grow along the list, up to the layer of the text queued
    /// last; a text range at the end of the list lies on that layer.
    #[verifier::opaque]
    pub open spec fn wf(self) -> bool {
        &&& covered(self.ranges, self.ranges.len() as int) == self.instances.len()
        &&& forall|i: int|
            0 <= i < self.ranges.len() && #[trigger] self.ranges[i] is Instances ==> {
                &&& self.ranges[i]->start == covered(self.ranges, i)
                &&& self.ranges[i]->start < self.ranges[i]->end
            }
        &&& forall|i: int|
            0 <= i < self.ranges.len() - 1 && #[trigger] self.ranges[i] is Instances
                && self.ranges[i + 1] is Instances ==> self.ranges[i]->texture != self.ranges[i
                + 1]->texture
        &&& forall|i: int|
            0 <= i < self.ranges.len() - 1 && #[trigger] self.ranges[i] is Text ==> self.ranges[i
                + 1] is Instances
        &&& forall|i: int|
            0 <= i < self.ranges.len() && #[trigger] self.ranges[i] is Text
                ==> self.ranges[i]->layer <= self.layer
        &&& forall|i: int, j: int|
            0 <= i < j < self.ranges.len() && #[trigger] self.ranges[i] is Text
                && #[trigger] self.ranges[j] is Text ==> self.ranges[i]->layer
                < self.ranges[j]->layer
        &&& 2 * self.layer <= self.ranges.len()
        &&& !self.combine ==> 2 * self.layer + 1 <= self.ranges.len() && self.ranges.last()
            is Instances
        &&& self.combine ==> self.ranges.len() == 0 || self.ranges.last() is Text
        &&& self.ranges.len() > 0 && self.ranges.last() is Text ==> self.ranges.last()->layer
            == self.layer
    }
}

/// The batcher of one window.
pub struct QuadRenderer {
    pixel_perfect: bool,
    instances: Vec<Quad>,
    instance_ranges: Vec<InstanceRange>,
    screen_size: Vec2,
    scroll_offset: Vec2,
    scale: i32,
    white_pixel: TextureId,
    glyph_texture: TextureId,
    glyph_layer: GlyphLayer,
    glyph_instances: Vec<GlyphVertex>,
}

impl View for QuadRenderer {
    type V = QuadRendererView;

    closed spec fn view(&self) -> QuadRendererView {
        QuadRendererView {
            pixel_perfect: self.pixel_perfect,
            instances: self.instances@,
            ranges: self.instance_ranges@,
            screen_size: self.screen_size,
            scroll_offset: self.scroll_offset,
            scale: self.scale,
            white_pixel: self.white_pixel,
            glyph_texture: self.glyph_texture,
            layer: self.glyph_layer.layer as nat,
            combine: self.glyph_layer.combine,
            glyphs: self.glyph_instances@,
        }
    }
}

impl QuadRenderer {
    /// The invariant of the batcher.
    pub open spec fn wf(&self) -> bool {
        self@.wf()
    }

    /// A batcher at the start of a frame, for a screen of one pixel, without
    /// scroll and at scale one. The two textures are made by the backend: a
    /// single white pixel, and the atlas for the glyphs.
    pub fn new(white_pixel: TextureId, glyph_texture: TextureId, pixel_perfect: bool) -> (renderer:
        QuadRenderer)
        ensures
            renderer.wf(),
            renderer@ == (QuadRendererView {
                pixel_perfect,
                instances: Seq::empty(),
                ranges: Seq::empty(),
                screen_size: Vec2 { x: 64, y: 64 },
                scroll_offset: Vec2 { x: 0, y: 0 },
                scale: 64,
                white_pixel,
                glyph_texture,
                layer: 0,
                combine: true,
                glyphs: Seq::empty(),
            }),
    {
        proof {
            reveal(QuadRendererView::wf);
        }
        QuadRenderer {
            pixel_perfect,
            instances: Vec::new(),
            instance_ranges: Vec::new(),
            screen_size: Vec2 { x: 64, y: 64 },
            scroll_offset: Vec2 { x: 0, y: 0 },
            scale: 64,
            white_pixel,
            glyph_texture,
            glyph_layer: GlyphLayer::new(),
            glyph_instances: Vec::new(),
        }
    }

    /// Takes the size of the screen, in units.
    pub fn set_screen_size(&mut self, width: i32, height: i32)
        ensures
            final(self)@ == (QuadRendererView {
                screen_size: Vec2 { x: width, y: height },
                ..old(self)@
            }),
            final(self).wf() == old(self).wf(),
    {
        self.screen_size = Vec2 { x: width, y: height };
        proof {
            reveal(QuadRendererView::wf);
        }
    }

    pub fn scroll_offset(&self) -> (scroll: Vec2)
        ensures
            scroll == self@.scroll_offset,
    {
        self.scroll_offset
    }

    /// Takes the scroll offset; pixel-perfect output rounds it to pixels.
    pub fn set_scroll_offset(&mut self, scroll: Vec2)
        ensures
            final(self)@ == (QuadRendererView {
                scroll_offset: if old(self)@.pixel_perfect {
                    Vec2 {
                        x: sat(round_px(scroll.x as int)) as i32,
                        y: sat(round_px(scroll.y as int)) as i32,
                    }
                } else {
                    scroll
                },
                ..old(self)@
            }),
            final(self).wf() == old(self).wf(),
    {
        if self.pixel_perfect {
            self.scroll_offset = Vec2 { x: round_to_pixel(scroll.x), y: round_to_pixel(scroll.y) };
        } else {
            self.scroll_offset = scroll;
        }
        proof {
            reveal(QuadRendererView::wf);
        }
    }

    pub fn scale(&self) -> (factor: i32)
        ensures
            factor == self@.scale,
    {
        self.scale
    }

    pub fn set_scale(&mut self, factor: i32)
        ensures
            final(self)@ == (QuadRendererView { scale: factor, ..old(self)@ }),
            final(self).wf() == old(self).wf(),
    {
        self.scale = factor;
        proof {
            reveal(QuadRendererView::wf);
        }
    }

    /// The quads queued in this frame, in paint order.
    pub fn instances(&self) -> (instances: &Vec<Quad>)
        ensures
            instances@ == self@.instances,
    {
        &self.instances
    }

    /// The paint order of this frame.
    pub fn instance_ranges(&self) -> (ranges: &Vec<InstanceRange>)
        ensures
            ranges@ == self@.ranges,
    {
        &self.instance_ranges
    }

    /// The atlas that is bound for text.
    pub fn glyph_texture(&self) -> (texture: TextureId)
        ensures
            texture == self@.glyph_texture,
    {
        self.glyph_texture
    }

    /// Takes the atlas that was made after the text engine asked for a
    /// larger one.
    pub fn set_glyph_texture(&mut self, texture: TextureId)
        ensures
            final(self)@ == (QuadRendererView { glyph_texture: texture, ..old(self)@ }),
            final(self).wf() == old(self).wf(),
    {
        self.glyph_texture = texture;
        proof {
            reveal(QuadRendererView::wf);
        }
    }

    fn transform(&self, rect: Rect) -> (placed: Rect)
        ensures
            placed == transformed(rect, self@.scale, self@.pixel_perfect),
    {
        let x = scale(rect.position.x, self.scale);
        let y = scale(rect.position.y, self.scale);
        let width = scale(rect.size.x, self.scale);
        let height = scale(rect.size.y, self.scale);
        if self.pixel_perfect {
            Rect {
                position: Vec2 { x: round_to_pixel(x), y: round_to_pixel(y) },
                size: Vec2 { x: floor_to_pixel(width), y: floor_to_pixel(height) },
            }
        } else {
            Rect { position: Vec2 { x, y }, size: Vec2 { x: width, y: height } }
        }
    }

    /// Queues a quad behind all that was queued in this frame. The quad is
    /// scaled, snapped and scrolled; if it has no extent or cannot be seen,
    /// nothing is queued.
    pub fn queue(&mut self, quad: RenderQuad)
        requires
            old(self).wf(),
        ensures
            final(self).wf(),
            final(self)@ == old(self)@.queued(quad),
    {
        let texture = match quad.texture {
            Some(texture) => texture,
            None => self.white_pixel,
        };
        let mut rect = self.transform(quad.rect);
        if rect.size.x <= 0 || rect.size.y <= 0 {
            return ;
        }
        if quad.scroll {
            rect.position = rect.position.sub(self.scroll_offset);
        }
        if rect.position.x as i64 + rect.size.x as i64 <= 0 || rect.position.y as i64
            + rect.size.y as i64 <= 0 || rect.position.x >= self.screen_size.x || rect.position.y
            >= self.screen_size.y {
            return ;
        }
        let mut uv = quad.uv_rect;
        if quad.flip_x {
            uv.position.x = sat_add(uv.position.x, uv.size.x);
            uv.size.x = saturate(-(uv.size.x as i64));
        }
        if quad.flip_y {
            uv.position.y = sat_add(uv.position.y, uv.size.y);
            uv.size.y = saturate(-(uv.size.y as i64));
        }
        self.glyph_layer.finish();
        self.instances.push(Quad { rect, uv, color: quad.color });
        let end = self.instances.len();
        let count = self.instance_ranges.len();
        let mut appended = false;
        if count > 0 {
            match self.instance_ranges[count - 1] {
                InstanceRange::Instances { texture: tail, start, end: _ } => {
                    if tail == texture {
                        self.instance_ranges.set(
                            count - 1,
                            InstanceRange::Instances { texture, start, end },
                        );
                        appended = true;
                    }
                },
                InstanceRange::Text { layer: _ } => {},
            }
        }
        if !appended {
            self.instance_ranges.push(
                InstanceRange::Instances { texture, start: end - 1, end },
            );
        }
        proof {
            let before = old(self)@;
            let after = self@;
            assert(after.ranges =~= extended(before.ranges, texture, end));
            lemma_extended_wf(before, texture, before.placed(quad).unwrap());
        }
    }

    /// Queues a quad of plain colour that moves with the scroll offset.
    pub fn queue_color(&mut self, rect: Rect, color: Color)
        requires
            old(self).wf(),
        ensures
            final(self).wf(),
            final(self)@ == old(self)@.queued(
                RenderQuad {
                    texture: None,
                    color,
                    rect,
                    uv_rect: Rect {
                        position: Vec2 { x: 0, y: 0 },
                        size: Vec2 { x: UV_ONE, y: UV_ONE },
                    },
                    flip_x: false,
                    flip_y: false,
                    scroll: true,
                },
            ),
    {
        self.queue(
            RenderQuad {
                texture: None,
                color,
                rect,
                uv_rect: Rect::new(0, 0, UV_ONE, UV_ONE),
                flip_x: false,
                flip_y: false,
                scroll: true,
            },
        );
    }

    /// Queues a quad that shows a whole texture, untinted, and moves with
    /// the scroll offset.
    pub fn queue_texture(&mut self, rect: Rect, texture: TextureId)
        requires
            old(self).wf(),
        ensures
            final(self).wf(),
            final(self)@ == old(self)@.queued(
                RenderQuad {
                    texture: Some(texture),
                    color: Color::white(),
                    rect,
                    uv_rect: Rect {
                        position: Vec2 { x: 0, y: 0 },
                        size: Vec2 { x: UV_ONE, y: UV_ONE },
                    },
                    flip_x: false,
                    flip_y: false,
                    scroll: true,
                },
            ),
    {
        self.queue(
            RenderQuad {
                texture: Some(texture),
                color: Color::white(),
                rect,
                uv_rect: Rect::new(0, 0, UV_ONE, UV_ONE),
                flip_x: false,
                flip_y: false,
                scroll: true,
            },
        );
    }

    /// Queues a rectangle of plain colour that stays where it is when the
    /// view scrolls.
    pub fn queue_rect(&mut self, point: Vec2, size: Vec2, color: Color)
        requires
            old(self).wf(),
        ensures
            final(self).wf(),
            final(self)@ == old(self)@.queued(
                RenderQuad {
                    texture: None,
                    color,
                    rect: Rect { position: point, size },
                    uv_rect: Rect {
                        position: Vec2 { x: 0, y: 0 },
                        size: Vec2 { x: UV_ONE, y: UV_ONE },
                    },
                    flip_x: false,
                    flip_y: false,
                    scroll: false,
                },
            ),
    {
        self.queue(
            RenderQuad {
                texture: None,
                color,
                rect: Rect { position: point, size },
                uv_rect: Rect::new(0, 0, UV_ONE, UV_ONE),
                flip_x: false,
                flip_y: false,
                scroll: false,
            },
        );
    }

    /// Lets every item of the list whose object still exists draw itself, in
    /// the order of the list, and drops the others from the list.
    pub fn queue_all<T: Renderable>(&mut self, arena: &Arena<T>, render_list: &mut RenderList)
        requires
            old(self).wf(),
        ensures
            final(self).wf(),
            final(self)@ == drawn_all(
                old(self)@,
                old(render_list).items@,
                *arena,
                old(render_list).items@.len() as int,
            ),
            final(render_list).items@ == living(
                old(render_list).items@,
                *arena,
                old(render_list).items@.len() as int,
            ),
    {
        let mut kept: Vec<WeakObj> = Vec::new();
        let mut i: usize = 0;
        while i < render_list.items.len()
            invariant
                self.wf(),
                i <= render_list.items@.len(),
                render_list.items@ == old(render_list).items@,
                kept@ == living(render_list.items@, *arena, i as int),
                self@ == drawn_all(old(self)@, render_list.items@, *arena, i as int),
            decreases render_list.items@.len() - i,
        {
            let item = render_list.items[i];
            match item.peek(arena) {
                Some(renderable) => {
                    renderable.render(self);
                    kept.push(item);
                },
                None => {},
            }
            i = i + 1;
        }
        render_list.items = kept;
    }

    /// Queues a run of text behind all that was queued in this frame, and
    /// says on which layer the text engine has to put it.
    pub fn queue_text(&mut self) -> (layer: usize)
        requires
            old(self).wf(),
        ensures
            final(self).wf(),
            final(self)@ == old(self)@.queued_text(),
            layer == final(self)@.layer,
    {
        let count = self.instance_ranges.len();
        proof {
            lemma_layer_bound(self@);
        }
        let layer = self.glyph_layer.next();
        let open = if count > 0 {
            match self.instance_ranges[count - 1] {
                InstanceRange::Text { layer: _ } => true,
                InstanceRange::Instances { texture: _, start: _, end: _ } => false,
            }
        } else {
            false
        };
        if !open {
            self.instance_ranges.push(InstanceRange::Text { layer });
        }
        proof {
            let before = old(self)@;
            assert(self@.ranges =~= with_text(before.ranges, layer));
            lemma_with_text_wf(before);
        }
        layer
    }

    /// Takes the answer of the text engine. If the atlas was too small, a
    /// larger one has to be made and the engine asked again, as often as it
    /// takes. New glyphs replace those at hand; a redraw keeps them.
    pub fn process_queued_text(&mut self, outcome: BrushOutcome) -> (action: TextAction)
        ensures
            action == text_action(outcome),
            final(self)@ == old(self)@.answered(outcome),
            final(self).wf() == old(self).wf(),
    {
        proof {
            reveal(QuadRendererView::wf);
        }
        match outcome {
            BrushOutcome::Draw(vertices) => {
                self.glyph_instances = vertices;
                TextAction::Ready
            },
            BrushOutcome::ReDraw => TextAction::Ready,
            BrushOutcome::TextureTooSmall { suggested_width, suggested_height } => {
                TextAction::Resize { width: suggested_width, height: suggested_height }
            },
        }
    }

    fn layer_instances(&self, layer: usize) -> (quads: Vec<Quad>)
        ensures
            quads@ == layer_quads(self@.glyphs, layer, self@.glyphs.len() as int),
    {
        let mut quads: Vec<Quad> = Vec::new();
        let mut i: usize = 0;
        while i < self.glyph_instances.len()
            invariant
                i <= self.glyph_instances@.len(),
                quads@ == layer_quads(self.glyph_instances@, layer, i as int),
            decreases self.glyph_instances@.len() - i,
        {
            let vertex = self.glyph_instances[i];
            if vertex.layer == layer {
                quads.push(vertex.quad);
            }
            i = i + 1;
        }
        quads
    }

    fn run_instances(&self, start: usize, end: usize) -> (quads: Vec<Quad>)
        requires
            start <= end <= self@.instances.len(),
        ensures
            quads@ == self@.instances.subrange(start as int, end as int),
    {
        let mut quads: Vec<Quad> = Vec::new();
        let mut i: usize = start;
        while i < end
            invariant
                start <= i <= end <= self.instances@.len(),
                quads@ == self.instances@.subrange(start as int, i as int),
            decreases end - i,
        {
            quads.push(self.instances[i]);
            i = i + 1;
            proof {
                assert(quads@ =~= self.instances@.subrange(start as int, i as int));
            }
        }
        quads
    }

    /// Ends the frame: one draw call for each range, in paint order. The
    /// quads, the ranges and the layer count start anew; the atlas and the
    /// glyphs at hand stay.
    pub fn render(&mut self) -> (calls: Vec<DrawCall>)
        requires
            old(self).wf(),
        ensures
            final(self).wf(),
            final(self)@ == old(self)@.flushed(),
            calls@.len() == old(self)@.ranges.len(),
            forall|i: int| 0 <= i < calls@.len() ==> old(self)@.draws(i, #[trigger] calls@[i]),
    {
        let mut calls: Vec<DrawCall> = Vec::new();
        let mut i: usize = 0;
        while i < self.instance_ranges.len()
            invariant
                self.wf(),
                *self == *old(self),
                i <= self.instance_ranges@.len(),
                calls@.len() == i,
                forall|j: int| 0 <= j < i ==> self@.draws(j, #[trigger] calls@[j]),
            decreases self.instance_ranges@.len() - i,
        {
            let call = match self.instance_ranges[i] {
                InstanceRange::Instances { texture, start, end } => {
                    proof {
                        lemma_run_in_bounds(self@, i as int);
                    }
                    DrawCall {
                        texture,
                        mask: self.white_pixel,
                        instances: self.run_instances(start, end),
                    }
                },
                InstanceRange::Text { layer } => {
                    DrawCall {
                        texture: self.white_pixel,
                        mask: self.glyph_texture,
                        instances: self.layer_instances(layer),
                    }
                },
            };
            calls.push(call);
            i = i + 1;
        }
        self.instance_ranges.clear();
        self.instances.clear();
        self.glyph_layer.reset();
        proof {
            assert(self@.instances =~= Seq::<Quad>::empty());
            assert(self@.ranges =~= Seq::<InstanceRange>::empty());
            reveal(QuadRendererView::wf);
        }
        calls
    }
}

/// What has to happen after an answer of the text engine: an atlas that is
/// too small has to be made anew in the suggested size, any other answer
/// has the glyphs at hand.
pub open spec fn text_action(outcome: BrushOutcome) -> TextAction {
    match outcome {
        BrushOutcome::TextureTooSmall { suggested_width, suggested_height } => TextAction::Resize {
            width: suggested_width,
            height: suggested_height,
        },
        _ => TextAction::Ready,
    }
}

/// The batcher after the first `upto` answers of the text engine, where
/// after each answer that asks for a new atlas the atlas made for it,
/// `atlases[i]` for the answer `i`, is taken.
pub open spec fn retried(
    view: QuadRendererView,
    answers: Seq<BrushOutcome>,
    atlases: Seq<TextureId>,
    upto: int,
) -> QuadRendererView
    decreases upto,
{
    if upto <= 0 {
        view
    } else {
        let after = retried(view, answers, atlases, upto - 1).answered(answers[upto - 1]);
        if text_action(answers[upto - 1]) is Resize {
            QuadRendererView { glyph_texture: atlases[upto - 1], ..after }
        } else {
            after
        }
    }
}

/// However often the text engine finds the atlas too small before it has
/// the glyphs: each of these `k` answers asks for a new atlas of the size
/// that the answer suggests and leaves the frame as it is, the atlas made
/// last is the one that is bound, the answer after them has the glyphs at
/// hand, and what was queued is all still there to be drawn.
pub proof fn lemma_retry_until_it_fits(
    view: QuadRendererView,
    answers: Seq<BrushOutcome>,
    atlases: Seq<TextureId>,
    k: int,
)
    requires
        0 <= k < answers.len(),
        forall|i: int| 0 <= i < k ==> #[trigger] answers[i] is TextureTooSmall,
        !(answers[k] is TextureTooSmall),
    ensures
        forall|i: int|
            0 <= i < k ==> text_action(#[trigger] answers[i]) == (TextAction::Resize {
                width: answers[i]->suggested_width,
                height: answers[i]->suggested_height,
            }),
        text_action(answers[k]) == TextAction::Ready,
        retried(view, answers, atlases, k) == (QuadRendererView {
            glyph_texture: if k == 0 {
                view.glyph_texture
            } else {
                atlases[k - 1]
            },
            ..view
        }),
        retried(view, answers, atlases, k + 1) == retried(view, answers, atlases, k).answered(
            answers[k],
        ),
        retried(view, answers, atlases, k + 1).ranges == view.ranges,
        retried(view, answers, atlases, k + 1).instances == view.instances,
        view.wf() ==> retried(view, answers, atlases, k + 1).wf(),
    decreases k,
{
    reveal(QuadRendererView::wf);
    if k > 0 {
        lemma_retried_prefix(view, answers, atlases, k - 1);
    }
    let before = retried(view, answers, atlases, k);
    assert(!(text_action(answers[k]) is Resize));
    assert(retried(view, answers, atlases, k + 1) == before.answered(answers[k]));
    assert forall|i: int| 0 <= i < k implies text_action(#[trigger] answers[i]) == (
    TextAction::Resize {
        width: answers[i]->suggested_width,
        height: answers[i]->suggested_height,
    }) by {
        assert(answers[i] is TextureTooSmall);
    }
}

/// After answers that all found the atlas too small, the frame is as it
/// was, with the atlas made last.
proof fn lemma_retried_prefix(
    view: QuadRendererView,
    answers: Seq<BrushOutcome>,
    atlases: Seq<TextureId>,
    k: int,
)
    requires
        0 <= k < answers.len(),
        forall|i: int| 0 <= i <= k ==> #[trigger] answers[i] is TextureTooSmall,
    ensures
        retried(view, answers, atlases, k + 1) == (QuadRendererView {
            glyph_texture: atlases[k],
            ..view
        }),
    decreases k,
{
    assert(answers[k] is TextureTooSmall);
    assert(text_action(answers[k]) is Resize);
    let before = retried(view, answers, atlases, k);
    assert(before.answered(answers[k]) == before);
    assert(retried(view, answers, atlases, k + 1) == (QuadRendererView {
        glyph_texture: atlases[k],
        ..before
    }));
    if k > 0 {
        lemma_retried_prefix(view, answers, atlases, k - 1);
    }
}

/// The quads that the runs cover grow along the list: a run ends where the
/// runs up to any later place end, or before.
pub proof fn lemma_covered_bound(ranges: Seq<InstanceRange>, i: int, upto: int)
    requires
        0 <= i < upto <= ranges.len(),
        ranges[i] is Instances,
        forall|k: int|
            0 <= k < ranges.len() && #[trigger] ranges[k] is Instances ==> {
                &&& ranges[k]->start == covered(ranges, k)
                &&& ranges[k]->start < ranges[k]->end
            },
    ensures
        ranges[i]->end <= covered(ranges, upto),
    decreases upto,
{
    if i < upto - 1 {
        lemma_covered_bound(ranges, i, upto - 1);
    }
}

/// What the invariant says of the paint order of a frame: the runs tile the
/// quads in order, two runs that touch differ in texture, two text ranges
/// never touch, and later text lies on a higher layer.
pub proof fn lemma_paint_order(view: QuadRendererView)
    requires
        view.wf(),
    ensures
        covered(view.ranges, view.ranges.len() as int) == view.instances.len(),
        forall|i: int|
            0 <= i < view.ranges.len() && #[trigger] view.ranges[i] is Instances ==> {
                &&& view.ranges[i]->start == covered(view.ranges, i)
                &&& view.ranges[i]->start < view.ranges[i]->end
            },
        forall|i: int|
            0 <= i < view.ranges.len() - 1 && #[trigger] view.ranges[i] is Instances
                && view.ranges[i + 1] is Instances ==> view.ranges[i]->texture != view.ranges[i
                + 1]->texture,
        forall|i: int|
            0 <= i < view.ranges.len() - 1 && #[trigger] view.ranges[i] is Text ==> view.ranges[i
                + 1] is Instances,
        forall|i: int, j: int|
            0 <= i < j < view.ranges.len() && #[trigger] view.ranges[i] is Text
                && #[trigger] view.ranges[j] is Text ==> view.ranges[i]->layer
                < view.ranges[j]->layer,
        view.ranges.len() > 0 && view.ranges.last() is Text ==> view.ranges.last()->layer
            == view.layer,
{
    reveal(QuadRendererView::wf);
}

/// Every run lies within the quads of the frame.
pub proof fn lemma_run_in_bounds(view: QuadRendererView, i: int)
    requires
        view.wf(),
        0 <= i < view.ranges.len(),
        view.ranges[i] is Instances,
    ensures
        view.ranges[i]->start < view.ranges[i]->end <= view.instances.len(),
{
    reveal(QuadRendererView::wf);
    lemma_covered_bound(view.ranges, i, view.ranges.len() as int);
}

/// While a layer is closed, there is room for the next one.
proof fn lemma_layer_bound(view: QuadRendererView)
    requires
        view.wf(),
    ensures
        2 * view.layer <= view.ranges.len(),
        !view.combine ==> 2 * view.layer + 1 <= view.ranges.len(),
{
    reveal(QuadRendererView::wf);
}

/// What lies before a place in the list is covered alike after the list
/// has grown or its last range has changed.
proof fn lemma_covered_prefix(a: Seq<InstanceRange>, b: Seq<InstanceRange>, upto: int)
    requires
        0 <= upto <= a.len(),
        upto <= b.len(),
        forall|k: int| 0 <= k < upto ==> a[k] == b[k],
    ensures
        covered(a, upto) == covered(b, upto),
    decreases upto,
{
    if upto > 0 {
        lemma_covered_prefix(a, b, upto - 1);
    }
}

/// Queuing a quad that is drawn keeps the invariant.
proof fn lemma_extended_wf(before: QuadRendererView, texture: TextureId, placed: Quad)
    requires
        before.wf(),
        before.instances.len() < usize::MAX,
    ensures
        (QuadRendererView {
            instances: before.instances.push(placed),
            ranges: extended(before.ranges, texture, (before.instances.len() + 1) as usize),
            combine: false,
            ..before
        }).wf(),
{
    reveal(QuadRendererView::wf);
    let end = (before.instances.len() + 1) as usize;
    let ranges = extended(before.ranges, texture, end);
    let after = QuadRendererView {
        instances: before.instances.push(placed),
        ranges,
        combine: false,
        ..before
    };
    let old_len = before.ranges.len() as int;
    if before.ranges.len() > 0 && before.ranges.last() is Instances && before.ranges.last()->texture
        == texture {
        assert(ranges.len() == old_len);
        assert forall|k: int| 0 <= k < old_len - 1 implies before.ranges[k] == ranges[k] by {}
        assert forall|i: int| 0 <= i < ranges.len() implies covered(ranges, i) == covered(
            before.ranges,
            i,
        ) by {
            lemma_covered_prefix(before.ranges, ranges, i);
        }
        assert(before.ranges[old_len - 1] is Instances);
        assert(ranges[old_len - 1]->start == before.ranges[old_len - 1]->start);
        assert(!before.combine);
    } else {
        assert(ranges.len() == old_len + 1);
        assert forall|k: int| 0 <= k < old_len implies before.ranges[k] == ranges[k] by {}
        assert forall|i: int| 0 <= i <= old_len implies covered(ranges, i) == covered(
            before.ranges,
            i,
        ) by {
            lemma_covered_prefix(before.ranges, ranges, i);
        }
        assert(ranges[old_len]->start == before.instances.len());
    }
    assert(after.wf());
}

/// Queuing text keeps the invariant.
proof fn lemma_with_text_wf(before: QuadRendererView)
    requires
        before.wf(),
        next_layer(before.layer, before.combine) <= usize::MAX,
    ensures
        before.queued_text().wf(),
{
    reveal(QuadRendererView::wf);
    let layer = next_layer(before.layer, before.combine);
    let ranges = with_text(before.ranges, layer as usize);
    let old_len = before.ranges.len() as int;
    if !(before.ranges.len() > 0 && before.ranges.last() is Text) {
        assert forall|k: int| 0 <= k < old_len implies before.ranges[k] == ranges[k] by {}
        assert forall|i: int| 0 <= i <= old_len implies covered(ranges, i) == covered(
            before.ranges,
            i,
        ) by {
            lemma_covered_prefix(before.ranges, ranges, i);
        }
        assert(covered(ranges, old_len + 1) == covered(ranges, old_len));
    }
    assert(before.queued_text().wf());
}

/// A quad that is not visible has no point in common with the screen.
pub proof fn lemma_invisible_is_outside(rect: Rect, screen: Vec2, x: int, y: int)
    requires
        !visible(rect, screen),
        0 <= x < screen.x,
        0 <= y < screen.y,
    ensures
        !(rect.position.x <= x < rect.position.x + rect.size.x && rect.position.y <= y
            < rect.position.y + rect.size.y),
{
}

/// A quad that lies outside the screen once it is scaled, snapped and
/// scrolled is dropped: the quads and the ranges of the frame stay as they
/// were.
pub proof fn lemma_outside_is_dropped(view: QuadRendererView, quad: RenderQuad)
    requires
        ({
            let rect = transformed(quad.rect, view.scale, view.pixel_perfect);
            let at = if quad.scroll {
                Rect { position: rect.position.minus(view.scroll_offset), size: rect.size }
            } else {
                rect
            };
            !visible(at, view.screen_size)
        }),
    ensures
        view.queued(quad) == view,
        view.queued(quad).instances.len() == view.instances.len(),
{
}

/// A quad whose texture differs from that of the run before it starts a run
/// of its own; one with the same texture makes that run longer by one.
pub proof fn lemma_extended_runs(ranges: Seq<InstanceRange>, texture: TextureId, end: usize)
    requires
        end > 0,
    ensures
        ranges.len() > 0 && ranges.last() is Instances && ranges.last()->texture == texture ==> {
            &&& extended(ranges, texture, end).len() == ranges.len()
            &&& extended(ranges, texture, end).last() == (InstanceRange::Instances {
                texture,
                start: ranges.last()->start,
                end,
            })
        },
        !(ranges.len() > 0 && ranges.last() is Instances && ranges.last()->texture == texture) ==> {
            &&& extended(ranges, texture, end).len() == ranges.len() + 1
            &&& extended(ranges, texture, end).last() == (InstanceRange::Instances {
                texture,
                start: (end - 1) as usize,
                end,
            })
            &&& extended(ranges, texture, end).drop_last() == ranges
        },
{
    if !(ranges.len() > 0 && ranges.last() is Instances && ranges.last()->texture == texture) {
        assert(extended(ranges, texture, end).drop_last() =~= ranges);
    }
}

} // verus!
