//! The 64x32 monochrome screen, held as an RGBA frame of 8192 bytes.
//!
//! A pixel is lit when its red, green and blue bytes differ from the "off"
//! colour; setting a pixel paints it in the "on" colour, unsetting it paints it
//! in the "off" colour. The alpha byte is always opaque.
use vstd::prelude::*;

verus! {

/// Width of the screen in pixels.
pub const SCREEN_WIDTH: usize = 64;

/// Height of the screen in pixels.
pub const SCREEN_HEIGHT: usize = 32;

/// Length of the RGBA frame: four bytes per pixel.
pub const FRAME_LEN: usize = 8192;

/// Colours used to present the screen.
#[derive(Clone, Copy)]
pub struct ColorConfig {
    pub fg_on_color: (u8, u8, u8),
    pub fg_off_color: (u8, u8, u8),
    pub bg_color: (u8, u8, u8),
}

/// The screen: an RGBA frame, row by row, and the colours it is painted with.
pub struct Display {
    pub frame: Vec<u8>,
    pub colors: ColorConfig,
}

/// Whether `(x, y)` lies on the screen.
pub open spec fn on_screen(x: int, y: int) -> bool {
    0 <= x < 64 && 0 <= y < 32
}

/// Index in the frame of the red byte of pixel `(x, y)`.
pub open spec fn pixel_offset(x: int, y: int) -> int {
    (y * 64 + x) * 4
}

/// `frame` with pixel `(x, y)` painted in colour `c`, fully opaque.
pub open spec fn paint(frame: Seq<u8>, x: int, y: int, c: (u8, u8, u8)) -> Seq<u8> {
    let o = pixel_offset(x, y);
    frame.update(o, c.0).update(o + 1, c.1).update(o + 2, c.2).update(o + 3, 255u8)
}

/// Every pixel of `frame` holds colour `c`, fully opaque.
pub open spec fn filled(frame: Seq<u8>, c: (u8, u8, u8)) -> bool {
    frame.len() == 8192 && forall|p: int|
        0 <= p < 2048 ==> {
            &&& #[trigger] frame[4 * p] == c.0
            &&& frame[4 * p + 1] == c.1
            &&& frame[4 * p + 2] == c.2
            &&& frame[4 * p + 3] == 255
        }
}

impl Display {
    pub open spec fn wf(&self) -> bool {
        self.frame@.len() == 8192
    }

    /// Whether pixel `(x, y)` is lit.
    pub open spec fn lit(&self, x: int, y: int) -> bool {
        let o = pixel_offset(x, y);
        let off = self.colors.fg_off_color;
        !(self.frame@[o] == off.0 && self.frame@[o + 1] == off.1 && self.frame@[o + 2] == off.2)
    }

    /// Whether a pixel that was set reads back as lit.
    pub open spec fn on_visible(&self) -> bool {
        self.colors.fg_on_color != self.colors.fg_off_color
    }

    /// A cleared screen painted with `colors`.
    pub fn new(colors: ColorConfig) -> (r: Display)
        ensures
            r.wf(),
            r.colors == colors,
            filled(r.frame@, colors.fg_off_color),
            forall|x: int, y: int| on_screen(x, y) ==> !#[trigger] r.lit(x, y),
    {
        let mut d = Display { frame: vec![0u8; FRAME_LEN], colors };
        d.clear_screen();
        d
    }

    fn paint_pixel(&mut self, x: u8, y: u8, c: (u8, u8, u8))
        requires
            old(self).wf(),
            (x as int) < 64,
            (y as int) < 32,
        ensures
            final(self).wf(),
            final(self).colors == old(self).colors,
            final(self).frame@ == paint(old(self).frame@, x as int, y as int, c),
            forall|a: int, b: int|
                on_screen(a, b) && (a != x || b != y) ==> #[trigger] final(self).lit(a, b)
                    == old(self).lit(a, b),
    {
        let o: usize = (y as usize * SCREEN_WIDTH + x as usize) * 4;
        self.frame[o] = c.0;
        self.frame[o + 1] = c.1;
        self.frame[o + 2] = c.2;
        self.frame[o + 3] = 255;
        assert(self.frame@ =~= paint(old(self).frame@, x as int, y as int, c));
    }

    /// Paints pixel `(x, y)` in the "on" colour.
    pub fn set_pixel(&mut self, x: u8, y: u8)
        requires
            old(self).wf(),
            (x as int) < 64,
            (y as int) < 32,
        ensures
            final(self).wf(),
            final(self).colors == old(self).colors,
            final(self).frame@ == paint(old(self).frame@, x as int, y as int, old(self).colors.fg_on_color),
            final(self).lit(x as int, y as int) == old(self).on_visible(),
            forall|a: int, b: int|
                on_screen(a, b) && (a != x || b != y) ==> #[trigger] final(self).lit(a, b)
                    == old(self).lit(a, b),
    {
        let c = self.colors.fg_on_color;
        self.paint_pixel(x, y, c);
    }

    /// Paints pixel `(x, y)` in the "off" colour.
    pub fn unset_pixel(&mut self, x: u8, y: u8)
        requires
            old(self).wf(),
            (x as int) < 64,
            (y as int) < 32,
        ensures
            final(self).wf(),
            final(self).colors == old(self).colors,
            final(self).frame@ == paint(old(self).frame@, x as int, y as int, old(self).colors.fg_off_color),
            !final(self).lit(x as int, y as int),
            forall|a: int, b: int|
                on_screen(a, b) && (a != x || b != y) ==> #[trigger] final(self).lit(a, b)
                    == old(self).lit(a, b),
    {
        let c = self.colors.fg_off_color;
        self.paint_pixel(x, y, c);
    }

    /// Whether pixel `(x, y)` is lit.
    pub fn get_pixel(&self, x: u8, y: u8) -> (r: bool)
        requires
            self.wf(),
            (x as int) < 64,
            (y as int) < 32,
        ensures
            r == self.lit(x as int, y as int),
    {
        let o: usize = (y as usize * SCREEN_WIDTH + x as usize) * 4;
        let off = self.colors.fg_off_color;
        !(self.frame[o] == off.0 && self.frame[o + 1] == off.1 && self.frame[o + 2] == off.2)
    }

    /// Paints every pixel in the "off" colour.
    pub fn clear_screen(&mut self)
        requires
            old(self).wf(),
        ensures
            final(self).wf(),
            final(self).colors == old(self).colors,
            filled(final(self).frame@, old(self).colors.fg_off_color),
            forall|x: int, y: int| on_screen(x, y) ==> !#[trigger] final(self).lit(x, y),
    {
        let off = self.colors.fg_off_color;
        for p in 0..SCREEN_WIDTH * SCREEN_HEIGHT
            invariant
                self.wf(),
                self.colors == old(self).colors,
                off == self.colors.fg_off_color,
                forall|q: int|
                    0 <= q < p ==> {
                        &&& #[trigger] self.frame@[4 * q] == off.0
                        &&& self.frame@[4 * q + 1] == off.1
                        &&& self.frame@[4 * q + 2] == off.2
                        &&& self.frame@[4 * q + 3] == 255
                    },
        {
            let ghost pre = self.frame@;
            self.frame[4 * p] = off.0;
            self.frame[4 * p + 1] = off.1;
            self.frame[4 * p + 2] = off.2;
            self.frame[4 * p + 3] = 255;
            assert forall|q: int| 0 <= q < p + 1 implies {
                &&& #[trigger] self.frame@[4 * q] == off.0
                &&& self.frame@[4 * q + 1] == off.1
                &&& self.frame@[4 * q + 2] == off.2
                &&& self.frame@[4 * q + 3] == 255
            } by {
                if q < p {
                    assert(pre[4 * q] == off.0);
                }
            }
        }
        assert forall|x: int, y: int| on_screen(x, y) implies !#[trigger] self.lit(x, y) by {
            let q = y * 64 + x;
            assert(0 <= q < 2048);
            assert(self.frame@[4 * q] == off.0);
        }
    }
}

} // verus!
