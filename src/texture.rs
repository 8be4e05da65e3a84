use vstd::prelude::*;
use std::collections::HashMap;
use crate::color::{Color, white};

verus! {

/// The largest texture side accepted, in pixels.
pub const MAX_TEXTURE_SIDE: usize = 4096;

/// An RGBA image: `width * height` pixels in row-major order, four bytes each.
pub struct Texture {
    pub width: usize,
    pub height: usize,
    pub data: Vec<u8>,
}

impl Texture {
    pub open spec fn wf(&self) -> bool {
        &&& 0 < self.width <= MAX_TEXTURE_SIDE
        &&& 0 < self.height <= MAX_TEXTURE_SIDE
        &&& self.data@.len() == self.width * self.height * 4
    }

    /// The color of the pixel at column `x`, row `y`.
    pub open spec fn texel(&self, x: int, y: int) -> Color {
        let i = (y * self.width + x) * 4;
        Color { r: self.data@[i], g: self.data@[i + 1], b: self.data@[i + 2], a: self.data@[i + 3] }
    }

    /// The color at `(x, y)` with each coordinate clamped to the last column or row.
    pub open spec fn clamped_texel(&self, x: int, y: int) -> Color {
        self.texel(
            if x < self.width { x } else { self.width - 1 },
            if y < self.height { y } else { self.height - 1 },
        )
    }

    /// Takes RGBA bytes as an image; `None` when the sizes are out of range or
    /// the byte count is not `width * height * 4`.
    pub fn from_rgba(width: usize, height: usize, data: Vec<u8>) -> (r: Option<Texture>)
        ensures
            r is Some <==> (0 < width <= MAX_TEXTURE_SIDE && 0 < height <= MAX_TEXTURE_SIDE
                && data@.len() == width * height * 4),
            r matches Some(t) ==> t.wf() && t.width == width && t.height == height && t.data@ == data@,
    {
        if width == 0 || width > MAX_TEXTURE_SIDE || height == 0 || height > MAX_TEXTURE_SIDE {
            return None;
        }
        proof {
            assert(width * height <= MAX_TEXTURE_SIDE * MAX_TEXTURE_SIDE) by (nonlinear_arith)
                requires width <= MAX_TEXTURE_SIDE, height <= MAX_TEXTURE_SIDE;
        }
        if data.len() != width * height * 4 {
            return None;
        }
        Some(Texture { width, height, data })
    }

    /// The color at `(x, y)`, clamped into the image.
    pub fn pixel(&self, x: u32, y: u32) -> (c: Color)
        requires
            self.wf(),
        ensures
            c == self.clamped_texel(x as int, y as int),
    {
        let cx: usize = if (x as usize) < self.width { x as usize } else { self.width - 1 };
        let cy: usize = if (y as usize) < self.height { y as usize } else { self.height - 1 };
        proof {
            assert((cy * self.width + cx) * 4 + 3 < self.width * self.height * 4) by (nonlinear_arith)
                requires cx < self.width, cy < self.height;
        }
        proof {
            assert(cy * self.width + cx < MAX_TEXTURE_SIDE * MAX_TEXTURE_SIDE) by (nonlinear_arith)
                requires cx < self.width, cy < self.height, self.width <= MAX_TEXTURE_SIDE, self.height <= MAX_TEXTURE_SIDE;
        }
        let i = (cy * self.width + cx) * 4;
        Color { r: self.data[i], g: self.data[i + 1], b: self.data[i + 2], a: self.data[i + 3] }
    }
}

/// The textures of a session, keyed by the code point of their symbol.
pub struct TextureManager {
    pub images: HashMap<u32, Texture>,
}

impl TextureManager {
    pub open spec fn wf(&self) -> bool {
        forall|k: u32| #[trigger] self.images@.contains_key(k) ==> self.images@[k].wf()
    }

    /// The texture stored for symbol `ch`.
    pub open spec fn texture_for(&self, ch: char) -> Option<Texture> {
        if self.images@.contains_key(ch as u32) {
            Some(self.images@[ch as u32])
        } else {
            None
        }
    }

    /// The color that symbol `ch` shows at `(tx, ty)`: the clamped pixel of its
    /// texture, white when it has none.
    pub open spec fn color_at(&self, ch: char, tx: int, ty: int) -> Color {
        match self.texture_for(ch) {
            Some(t) => t.clamped_texel(tx, ty),
            None => white(),
        }
    }

    /// A manager with no textures.
    pub fn new() -> (m: TextureManager)
        ensures
            m.wf(),
            forall|ch: char| m.texture_for(ch) is None,
    {
        TextureManager { images: HashMap::new() }
    }

    /// Stores `texture` for symbol `ch`, replacing what was there.
    pub fn insert(&mut self, ch: char, texture: Texture)
        requires
            old(self).wf(),
            texture.wf(),
        ensures
            final(self).wf(),
            final(self).texture_for(ch) == Some(texture),
            forall|c: char| c != ch ==> final(self).texture_for(c) == old(self).texture_for(c),
    {
        broadcast use vstd::std_specs::hash::group_hash_axioms;
        self.images.insert(ch as u32, texture);
        proof {
            assert forall|c: char| c != ch implies self.texture_for(c) == old(self).texture_for(c) by {
                vstd::utf8::char_u32_cast(c, c as u32);
                vstd::utf8::char_u32_cast(ch, ch as u32);
                assert(c as u32 != ch as u32);
            }
        }
    }

    /// The texture stored for symbol `ch`.
    pub fn get(&self, ch: char) -> (r: Option<&Texture>)
        requires
            self.wf(),
        ensures
            match r {
                Some(t) => self.texture_for(ch) == Some(*t) && t.wf(),
                None => self.texture_for(ch) is None,
            },
    {
        broadcast use vstd::std_specs::hash::group_hash_axioms;
        let key: u32 = ch as u32;
        self.images.get(&key)
    }

    /// The clamped color of symbol `ch`'s texture at `(tx, ty)`; white when
    /// the symbol has no texture.
    pub fn get_pixel_color(&self, ch: char, tx: u32, ty: u32) -> (c: Color)
        requires
            self.wf(),
        ensures
            c == self.color_at(ch, tx as int, ty as int),
    {
        match self.get(ch) {
            Some(t) => t.pixel(tx, ty),
            None => white(),
        }
    }
}

} // verus!
