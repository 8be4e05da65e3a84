use vstd::prelude::*;
use crate::color::Color;

verus! {

/// A write-only pixel surface: `width * height` colors in row-major order,
/// a background color for clearing and a currently selected drawing color.
pub struct Framebuffer {
    pub width: usize,
    pub height: usize,
    pub buffer: Vec<Color>,
    pub background_color: Color,
    pub current_color: Color,
}

impl Framebuffer {
    pub open spec fn wf(&self) -> bool {
        &&& self.buffer@.len() == self.width * self.height
        &&& self.width * self.height <= usize::MAX
    }

    /// The color at column `x`, row `y`.
    pub open spec fn pixel(&self, x: int, y: int) -> Color {
        self.buffer@[y * self.width + x]
    }

    pub fn new(width: usize, height: usize) -> (fb: Framebuffer)
        requires
            width * height <= usize::MAX,
        ensures
            fb.wf(),
            fb.width == width,
            fb.height == height,
            fb.background_color == crate::color::black(),
            fb.current_color == crate::color::white(),
            forall|i: int| 0 <= i < fb.buffer@.len() ==> fb.buffer@[i] == crate::color::black(),
    {
        let n: usize = width * height;
        let buffer = vec![crate::color::black(); n];
        Framebuffer {
            width,
            height,
            buffer,
            background_color: crate::color::black(),
            current_color: crate::color::white(),
        }
    }

    /// Resets every pixel to the background color.
    pub fn clear(&mut self)
        requires
            old(self).wf(),
        ensures
            final(self).wf(),
            final(self).width == old(self).width,
            final(self).height == old(self).height,
            final(self).background_color == old(self).background_color,
            final(self).current_color == old(self).current_color,
            forall|i: int|
                0 <= i < final(self).buffer@.len() ==> final(self).buffer@[i] == old(
                    self,
                ).background_color,
    {
        let n = self.buffer.len();
        let mut i: usize = 0;
        while i < n
            invariant
                self.wf(),
                n == self.buffer@.len(),
                self.width == old(self).width,
                self.height == old(self).height,
                self.background_color == old(self).background_color,
                self.current_color == old(self).current_color,
                i <= n,
                forall|j: int| 0 <= j < i ==> self.buffer@[j] == old(self).background_color,
            decreases n - i,
        {
            let c = self.background_color;
            self.buffer.set(i, c);
            i = i + 1;
        }
    }

    pub fn set_background_color(&mut self, color: Color)
        ensures
            *final(self) == (Framebuffer { background_color: color, ..*old(self) }),
    {
        self.background_color = color;
    }

    pub fn set_current_color(&mut self, color: Color)
        ensures
            *final(self) == (Framebuffer { current_color: color, ..*old(self) }),
    {
        self.current_color = color;
    }

    /// Writes the current color at `(x, y)`; the caller keeps inside the surface.
    pub fn set_pixel(&mut self, x: usize, y: usize)
        requires
            old(self).wf(),
            x < old(self).width,
            y < old(self).height,
        ensures
            final(self).wf(),
            final(self).width == old(self).width,
            final(self).height == old(self).height,
            final(self).background_color == old(self).background_color,
            final(self).current_color == old(self).current_color,
            final(self).buffer@ == old(self).buffer@.update(
                y * old(self).width + x,
                old(self).current_color,
            ),
            forall|px: int, py: int|
                0 <= px < old(self).width && 0 <= py < old(self).height
                    ==> (#[trigger] final(self).pixel(px, py)) == (if px == x && py == y {
                    old(self).current_color
                } else {
                    old(self).pixel(px, py)
                }),
    {
        proof {
            assert(y * self.width + x < self.width * self.height) by (nonlinear_arith)
                requires
                    x < self.width,
                    y < self.height,
            ;
            assert forall|px: int, py: int|
                0 <= px < self.width && 0 <= py < self.height && !(px == x && py == y) implies
                #[trigger] (py * self.width + px) != y * self.width + x && py * self.width + px < self.width * self.height by {
                if py * self.width + px == y * self.width + x {
                    pixel_index_injective(self.width as int, px, py, x as int, y as int);
                }
                assert(py * self.width + px < self.width * self.height) by (nonlinear_arith)
                    requires
                        px < self.width,
                        py < self.height,
                        0 <= px, 0 <= py,
                ;
            }
        }
        let i = y * self.width + x;
        let c = self.current_color;
        self.buffer.set(i, c);
    }

    /// Selects `color` and writes it at `(x, y)`.
    pub fn put_pixel(&mut self, x: usize, y: usize, color: Color)
        requires
            old(self).wf(),
            x < old(self).width,
            y < old(self).height,
        ensures
            final(self).wf(),
            final(self).width == old(self).width,
            final(self).height == old(self).height,
            final(self).background_color == old(self).background_color,
            final(self).current_color == color,
            forall|px: int, py: int|
                0 <= px < old(self).width && 0 <= py < old(self).height
                    ==> (#[trigger] final(self).pixel(px, py)) == (if px == x && py == y {
                    color
                } else {
                    old(self).pixel(px, py)
                }),
    {
        let ghost before = *self;
        self.set_current_color(color);
        assert(self.buffer@ == before.buffer@);
        assert forall|px: int, py: int| 0 <= px < before.width && 0 <= py < before.height implies
            #[trigger] self.pixel(px, py) == before.pixel(px, py) by {}
        self.set_pixel(x, y);
    }

    /// The color at `(x, y)`.
    pub fn get_pixel(&self, x: usize, y: usize) -> (c: Color)
        requires
            self.wf(),
            x < self.width,
            y < self.height,
        ensures
            c == self.pixel(x as int, y as int),
    {
        proof {
            assert(y * self.width + x < self.width * self.height) by (nonlinear_arith)
                requires
                    x < self.width,
                    y < self.height,
            ;
        }
        self.buffer[y * self.width + x]
    }
}

/// Distinct pixels of a row-major surface have distinct buffer positions.
pub proof fn pixel_index_injective(w: int, x1: int, y1: int, x2: int, y2: int)
    requires
        0 <= x1 < w,
        0 <= x2 < w,
        0 <= y1,
        0 <= y2,
        y1 * w + x1 == y2 * w + x2,
    ensures
        x1 == x2 && y1 == y2,
{
    if y1 < y2 {
        assert(y1 * w + x1 < y2 * w + x2) by (nonlinear_arith)
            requires y1 < y2, 0 <= x1 < w, 0 <= x2;
    } else if y2 < y1 {
        assert(y2 * w + x2 < y1 * w + x1) by (nonlinear_arith)
            requires y2 < y1, 0 <= x2 < w, 0 <= x1;
    }
}

} // verus!
