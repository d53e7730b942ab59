use crate::geometry::{trunc_div, trunc_div_of, within, Vec2, LIMIT, UNIT};
use vstd::prelude::*;

verus! {

/// Window width in pixels.
pub const SCREEN_WIDTH: u32 = 320;

/// Window height in pixels.
pub const SCREEN_HEIGHT: u32 = 200;

/// The rendered view: world unit lengths map to its size in pixels, with the
/// world's origin at its centre and `y` growing upward.
#[derive(Clone, Copy, Debug, PartialEq, Eq, Structural)]
pub struct Screen {
    pub view_width: u32,
    pub view_height: u32,
}

impl Screen {
    pub open spec fn width(&self) -> int {
        self.view_width as int
    }

    pub open spec fn height(&self) -> int {
        self.view_height as int
    }

    /// The view for the window: the largest 8:5 area whose cells fit its width.
    pub fn new() -> (r: Screen)
        ensures
            r.width() == 320,
            r.height() == 200,
    {
        let cell = SCREEN_WIDTH / 8;
        Screen { view_width: cell * 8, view_height: cell * 5 }
    }

    /// Pixel of a world position, counted from the view's top-left corner and
    /// rounded toward zero.
    pub open spec fn pixel_of(&self, p: Vec2) -> Vec2 {
        Vec2 {
            x: trunc_div(self.width() * p.x + self.width() * (UNIT / 2), UNIT as int) as i64,
            y: trunc_div(self.height() * (UNIT / 2) - self.height() * p.y, UNIT as int) as i64,
        }
    }

    pub fn position_to_pixel(&self, p: Vec2) -> (r: Vec2)
        requires
            p.bounded(),
        ensures
            r == self.pixel_of(p),
    {
        let w = self.view_width as i128;
        let h = self.view_height as i128;
        proof {
            lemma_scaled_bounds(w as int, p.x as int);
            lemma_scaled_bounds(h as int, p.y as int);
        }
        let x = trunc_div_of(w * p.x as i128 + w * (UNIT / 2) as i128, UNIT as i128);
        let y = trunc_div_of(h * (UNIT / 2) as i128 - h * p.y as i128, UNIT as i128);
        proof {
            lemma_pixel_fits(w * p.x + w * (UNIT / 2));
            lemma_pixel_fits(h * (UNIT / 2) - h * p.y);
        }
        Vec2 { x: x as i64, y: y as i64 }
    }

    /// Size in pixels of a world size.
    pub open spec fn pixel_size(&self, s: Vec2) -> Vec2 {
        Vec2 {
            x: trunc_div(self.width() * s.x, UNIT as int) as i64,
            y: trunc_div(self.height() * s.y, UNIT as int) as i64,
        }
    }

    pub fn size_to_pixel(&self, s: Vec2) -> (r: Vec2)
        requires
            s.bounded(),
        ensures
            r == self.pixel_size(s),
    {
        let w = self.view_width as i128;
        let h = self.view_height as i128;
        proof {
            lemma_scaled_bounds(w as int, s.x as int);
            lemma_scaled_bounds(h as int, s.y as int);
        }
        let x = trunc_div_of(w * s.x as i128, UNIT as i128);
        let y = trunc_div_of(h * s.y as i128, UNIT as i128);
        proof {
            lemma_pixel_fits(w * s.x);
            lemma_pixel_fits(h * s.y);
        }
        Vec2 { x: x as i64, y: y as i64 }
    }
}

proof fn lemma_scaled_bounds(len: int, c: int)
    requires
        0 <= len <= u32::MAX,
        within(c, LIMIT as int),
    ensures
        -5_000_000_000_000_000_000_000 <= len * c <= 5_000_000_000_000_000_000_000,
        0 <= len * (UNIT / 2) <= 5_000_000_000_000_000,
{
    assert(-5_000_000_000_000_000_000_000 <= len * c <= 5_000_000_000_000_000_000_000) by (nonlinear_arith)
        requires
            0 <= len <= 4_294_967_295,
            -1_000_000_000_000 <= c <= 1_000_000_000_000,
    ;
    assert(0 <= len * 500_000 <= 5_000_000_000_000_000) by (nonlinear_arith)
        requires
            0 <= len <= 4_294_967_295,
    ;
}

proof fn lemma_pixel_fits(n: int)
    requires
        -6_000_000_000_000_000_000_000 <= n <= 6_000_000_000_000_000_000_000,
    ensures
        -9_000_000_000_000_000 <= trunc_div(n, UNIT as int) <= 9_000_000_000_000_000,
{
    if n >= 0 {
        vstd::arithmetic::div_mod::lemma_div_is_ordered(n, 6_000_000_000_000_000_000_000, UNIT as int);
        vstd::arithmetic::div_mod::lemma_div_pos_is_pos(n, UNIT as int);
    } else {
        vstd::arithmetic::div_mod::lemma_div_is_ordered(-n, 6_000_000_000_000_000_000_000, UNIT as int);
        vstd::arithmetic::div_mod::lemma_div_pos_is_pos(-n, UNIT as int);
    }
}

/// Whether `first` is drawn on a higher pixel row than `second`.
pub fn is_on_top(first: Vec2, second: Vec2, screen: &Screen) -> (r: bool)
    requires
        first.bounded(),
        second.bounded(),
    ensures
        r == (screen.pixel_of(second).y > screen.pixel_of(first).y),
{
    screen.position_to_pixel(second).y > screen.position_to_pixel(first).y
}

} // verus!
