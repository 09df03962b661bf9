//! The follow camera: a view centred on the player, scaled to the viewport.
use vstd::prelude::*;
use crate::geom::{Vec2i, Rect};
use crate::handle::Handle;

verus! {

/// A view transform. The point `target` maps to the centre of the screen; the
/// viewport is `viewport_height` pixels tall and `viewport_height * screen_w /
/// screen_h` pixels wide, so that the horizontal scale is `2 / viewport width`
/// and the vertical scale is `-2 / viewport_height` (y grows downwards).
#[derive(Clone, Copy, Debug, PartialEq, Eq, Structural)]
pub struct View {
    pub target: Vec2i,
    pub viewport_height: u32,
    pub screen_w: u32,
    pub screen_h: u32,
}

impl View {
    /// The viewport's width in whole pixels, rounded down.
    pub fn viewport_width(&self) -> (r: u64)
        requires
            self.screen_h > 0,
        ensures
            r == (self.viewport_height as int * self.screen_w as int) / (self.screen_h as int),
    {
        let h = self.viewport_height as u64;
        let w = self.screen_w as u64;
        assert(h * w <= u32::MAX * u32::MAX) by (nonlinear_arith)
            requires
                h <= u32::MAX,
                w <= u32::MAX,
        ;
        let num: u64 = h * w;
        num / self.screen_h as u64
    }
}

/// The camera: the player it follows, how tall its viewport is, and the last
/// view it computed (none before the first).
pub struct Camera {
    pub bounds: Rect,
    pub player: Handle,
    pub viewport_height: u32,
    pub view: Option<View>,
}

impl Camera {
    /// The camera after a frame in which the player stood at `player_pos` (none
    /// if the player's handle did not resolve) on a screen of `screen_w` by
    /// `screen_h` pixels: a new view on the player, or the previous view where
    /// there is no player or no screen height.
    pub open spec fn followed(self, player_pos: Option<Vec2i>, screen_w: u32, screen_h: u32) -> Camera {
        match player_pos {
            Some(p) => if screen_h > 0 {
                Camera {
                    view: Some(
                        View {
                            target: p,
                            viewport_height: self.viewport_height,
                            screen_w,
                            screen_h,
                        },
                    ),
                    ..self
                }
            } else {
                self
            },
            None => self,
        }
    }

    pub fn new(bounds: Rect, viewport_height: u32, player: Handle) -> (r: Camera)
        ensures
            r == (Camera { bounds, player, viewport_height, view: None }),
    {
        Camera { bounds, player, viewport_height, view: None }
    }

    /// Where the camera looks: the last view's target, or the origin before any.
    pub fn pos(&self) -> (r: Vec2i)
        ensures
            r == (match self.view {
                Some(v) => v.target,
                None => Vec2i { x: 0, y: 0 },
            }),
    {
        match self.view {
            Some(v) => v.target,
            None => Vec2i { x: 0, y: 0 },
        }
    }

    /// The last computed view, if any.
    pub fn macroquad_camera(&self) -> (r: Option<View>)
        ensures
            r == self.view,
    {
        self.view
    }

    /// Recomputes the view for this frame, see `followed`.
    pub fn update(&mut self, player_pos: Option<Vec2i>, screen_w: u32, screen_h: u32)
        ensures
            *final(self) == old(self).followed(player_pos, screen_w, screen_h),
    {
        match player_pos {
            Some(p) => {
                if screen_h > 0 {
                    self.view = Some(
                        View {
                            target: p,
                            viewport_height: self.viewport_height,
                            screen_w,
                            screen_h,
                        },
                    );
                }
            },
            None => {},
        }
    }
}

} // verus!
