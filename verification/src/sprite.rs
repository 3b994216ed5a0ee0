//! Sprite sheets: named animations over the frames of one texture.

use vstd::prelude::*;
use vstd::string::StringExecFns;
use crate::quad::{TextureId, UV_ONE};
use crate::two::{Rect, Vec2};
use crate::units::{sat, saturate};

verus! {

/// The frames of one animation, as rectangles on the texture.
#[derive(Clone, PartialEq, Eq, Debug)]
pub struct Animation {
    pub name: String,
    pub frames: Vec<Rect>,
}

/// Microseconds in a second.
pub const SECOND: u64 = 1_000_000;

/// How long a frame is shown at the given rate, in microseconds; at a rate
/// of zero a frame stays for good.
pub open spec fn frame_duration(fps: u32) -> u64 {
    if fps == 0 {
        u64::MAX
    } else {
        (SECOND / fps as u64) as u64
    }
}

/// A length on the texture as a texture coordinate: its share of the
/// texture's extent in parts of [`UV_ONE`], rounded towards zero.
pub open spec fn share(length: int, extent: int) -> int {
    if length >= 0 {
        (length * 0x1_0000) / extent
    } else {
        -(((-length) * 0x1_0000) / extent)
    }
}

fn share_of(length: i32, extent: i32) -> (r: i32)
    requires
        extent > 0,
    ensures
        r == sat(share(length as int, extent as int)),
{
    if length >= 0 {
        let scaled: i64 = length as i64 * 0x1_0000;
        saturate(scaled / extent as i64)
    } else {
        let scaled: i64 = (-(length as i64)) * 0x1_0000;
        saturate(-(scaled / extent as i64))
    }
}

/// Where the animation of that name stands among the first `upto`.
pub open spec fn animation_at(animations: Seq<Animation>, name: Seq<char>, upto: int) -> Option<int>
    decreases upto,
{
    if upto <= 0 {
        None
    } else if animations[upto - 1].name@ == name {
        Some(upto - 1)
    } else {
        animation_at(animations, name, upto - 1)
    }
}

/// The mathematical content of a [`SpriteSheet`].
pub struct SpriteSheetView {
    pub texture: TextureId,
    pub texture_size: Vec2,
    pub animations: Seq<Animation>,
    pub current_frame: Rect,
    pub current_animation: Seq<char>,
    pub current_animation_frame: nat,
    pub frame_duration: u64,
    pub frame_time: u64,
}

impl SpriteSheetView {
    /// The frames of the current animation, if the sheet has it and it is
    /// not empty.
    pub open spec fn playing(self) -> Option<Seq<Rect>> {
        match animation_at(self.animations, self.current_animation, self.animations.len() as int) {
            Some(at) => if self.animations[at].frames@.len() > 0 {
                Some(self.animations[at].frames@)
            } else {
                None
            },
            None => None,
        }
    }

    /// The sheet on frame `frame` of the current animation, counted round
    /// and round. A sheet that is playing nothing stays as it is.
    pub open spec fn at_frame(self, frame: nat) -> SpriteSheetView {
        match self.playing() {
            Some(frames) => SpriteSheetView {
                current_animation_frame: frame % frames.len(),
                current_frame: frames[(frame % frames.len()) as int],
                ..self
            },
            None => self,
        }
    }

    /// The sheet after `elapsed` microseconds: when a frame has had its
    /// time, the next one is shown, and the time over counts for it.
    pub open spec fn animated(self, elapsed: u64) -> SpriteSheetView {
        let time = if self.frame_time + elapsed > u64::MAX {
            u64::MAX
        } else {
            (self.frame_time + elapsed) as u64
        };
        if time >= self.frame_duration {
            (SpriteSheetView {
                frame_time: (time - self.frame_duration) as u64,
                ..self
            }).at_frame(self.current_animation_frame + 1)
        } else {
            SpriteSheetView { frame_time: time, ..self }
        }
    }
}

/// A texture with its animations, and which frame of which is shown.
#[derive(Clone, PartialEq, Eq, Debug)]
pub struct SpriteSheet {
    texture: TextureId,
    texture_size: Vec2,
    frames: Vec<Animation>,
    current_frame: Rect,
    current_animation: String,
    current_animation_frame: usize,
    frame_duration: u64,
    frame_time: u64,
}

impl View for SpriteSheet {
    type V = SpriteSheetView;

    closed spec fn view(&self) -> SpriteSheetView {
        SpriteSheetView {
            texture: self.texture,
            texture_size: self.texture_size,
            animations: self.frames@,
            current_frame: self.current_frame,
            current_animation: self.current_animation@,
            current_animation_frame: self.current_animation_frame as nat,
            frame_duration: self.frame_duration,
            frame_time: self.frame_time,
        }
    }
}

impl SpriteSheet {
    /// The texture has an extent, and the frame counter has room to count on.
    pub open spec fn wf(&self) -> bool {
        &&& self@.texture_size.x > 0
        &&& self@.texture_size.y > 0
        &&& self@.current_animation_frame < usize::MAX
    }

    /// A sheet that shows nothing yet.
    pub fn new(texture: TextureId, texture_size: Vec2, frames: Vec<Animation>, fps: u32) -> (sheet:
        SpriteSheet)
        requires
            texture_size.x > 0,
            texture_size.y > 0,
        ensures
            sheet.wf(),
            sheet@ == (SpriteSheetView {
                texture,
                texture_size,
                animations: frames@,
                current_frame: Rect { position: Vec2 { x: 0, y: 0 }, size: Vec2 { x: 0, y: 0 } },
                current_animation: Seq::empty(),
                current_animation_frame: 0,
                frame_duration: frame_duration(fps),
                frame_time: 0,
            }),
    {
        let frame_duration = if fps == 0 {
            u64::MAX
        } else {
            SECOND / fps as u64
        };
        SpriteSheet {
            texture,
            texture_size,
            frames,
            current_frame: Rect::zero(),
            current_animation: String::new(),
            current_animation_frame: 0,
            frame_duration,
            frame_time: 0,
        }
    }

    pub fn texture(&self) -> (texture: TextureId)
        ensures
            texture == self@.texture,
    {
        self.texture
    }

    pub fn current_frame(&self) -> (frame: Rect)
        ensures
            frame == self@.current_frame,
    {
        self.current_frame
    }

    /// The current frame in texture coordinates.
    pub fn uv_rect(&self) -> (uv: Rect)
        requires
            self.wf(),
        ensures
            uv.position.x == sat(
                share(self@.current_frame.position.x as int, self@.texture_size.x as int),
            ),
            uv.position.y == sat(
                share(self@.current_frame.position.y as int, self@.texture_size.y as int),
            ),
            uv.size.x == sat(share(self@.current_frame.size.x as int, self@.texture_size.x as int)),
            uv.size.y == sat(share(self@.current_frame.size.y as int, self@.texture_size.y as int)),
    {
        Rect {
            position: Vec2 {
                x: share_of(self.current_frame.position.x, self.texture_size.x),
                y: share_of(self.current_frame.position.y, self.texture_size.y),
            },
            size: Vec2 {
                x: share_of(self.current_frame.size.x, self.texture_size.x),
                y: share_of(self.current_frame.size.y, self.texture_size.y),
            },
        }
    }

    fn find(&self) -> (found: Option<usize>)
        ensures
            match found {
                Some(at) => at < self.frames@.len() && animation_at(
                    self.frames@,
                    self.current_animation@,
                    self.frames@.len() as int,
                ) == Some(at as int),
                None => animation_at(
                    self.frames@,
                    self.current_animation@,
                    self.frames@.len() as int,
                ) is None,
            },
    {
        let mut i = self.frames.len();
        while i > 0
            invariant
                i <= self.frames@.len(),
                animation_at(self.frames@, self.current_animation@, self.frames@.len() as int)
                    == animation_at(self.frames@, self.current_animation@, i as int),
            decreases i,
        {
            i = i - 1;
            if self.frames[i].name == self.current_animation {
                return Some(i);
            }
        }
        None
    }

    /// Starts the animation of that name at its first frame.
    pub fn set_animation(&mut self, animation: &str)
        requires
            old(self).wf(),
        ensures
            final(self).wf(),
            final(self)@ == (SpriteSheetView {
                current_animation: animation@,
                frame_time: 0,
                ..old(self)@
            }).at_frame(0),
    {
        self.current_animation = String::from_str(animation);
        self.frame_time = 0;
        self.set_animation_frame(0);
    }

    /// Shows frame `frame` of the current animation, counted round and
    /// round.
    pub fn set_animation_frame(&mut self, frame: usize)
        requires
            old(self).wf(),
        ensures
            final(self).wf(),
            final(self)@ == old(self)@.at_frame(frame as nat),
    {
        match self.find() {
            Some(at) => {
                let count = self.frames[at].frames.len();
                if count > 0 {
                    self.current_animation_frame = frame % count;
                    self.current_frame = self.frames[at].frames[self.current_animation_frame];
                }
            },
            None => {},
        }
    }

    /// Lets `elapsed` microseconds pass.
    pub fn animate(&mut self, elapsed: u64)
        requires
            old(self).wf(),
        ensures
            final(self).wf(),
            final(self)@ == old(self)@.animated(elapsed),
    {
        self.frame_time = if elapsed > u64::MAX - self.frame_time {
            u64::MAX
        } else {
            self.frame_time + elapsed
        };
        if self.frame_time >= self.frame_duration {
            self.frame_time = self.frame_time - self.frame_duration;
            let next = self.current_animation_frame + 1;
            self.set_animation_frame(next);
        }
    }
}

} // verus!
