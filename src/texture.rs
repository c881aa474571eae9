use vstd::prelude::*;

verus! {

/// An RGBA image held row by row, four bytes per texel.
#[derive(Clone, Debug)]
pub struct Texture {
    pub width: u32,
    pub height: u32,
    pub data: Vec<u8>,
}

impl Texture {
    pub open spec fn wf(&self) -> bool {
        &&& self.width >= 1
        &&& self.height >= 1
        &&& self.data@.len() == self.width * self.height * 4
    }

    /// Byte `c` of texel `(x, y)`.
    pub open spec fn byte(&self, x: int, y: int, c: int) -> u8 {
        self.data@[(y * self.width + x) * 4 + c]
    }

    /// A texture from its size and RGBA bytes; `None` when the size is zero
    /// or the bytes do not fill it exactly.
    pub fn from_rgba(width: u32, height: u32, data: Vec<u8>) -> (r: Option<Texture>)
        ensures
            r is Some <==> (width >= 1 && height >= 1 && data@.len() == width * height * 4),
            r matches Some(t) ==> t.wf() && t.width == width && t.height == height && t.data@ == data@,
    {
        if width == 0 || height == 0 {
            return None;
        }
        assert(width as u64 * height as u64 <= 0xffff_ffff * 0xffff_ffff) by (nonlinear_arith)
            requires
                width <= 0xffff_ffff,
                height <= 0xffff_ffff,
        ;
        let n: u64 = width as u64 * height as u64;
        if data.len() as u64 / 4 != n || data.len() % 4 != 0 {
            return None;
        }
        Some(Texture { width, height, data })
    }

    /// The RGBA bytes of texel `(x, y)`.
    pub fn get_pixel(&self, x: u32, y: u32) -> (r: [u8; 4])
        requires
            self.wf(),
            x < self.width,
            y < self.height,
        ensures
            r@ == seq![self.byte(x as int, y as int, 0), self.byte(x as int, y as int, 1),
                self.byte(x as int, y as int, 2), self.byte(x as int, y as int, 3)],
    {
        let w = self.width as usize;
        let len = self.data.len();
        proof {
            assert(y * self.width + x < self.width * self.height) by (nonlinear_arith)
                requires
                    x < self.width,
                    y < self.height,
            ;
            assert(y * self.width <= y * self.width + x);
        }
        let i: usize = (y as usize * w + x as usize) * 4;
        let r = [self.data[i], self.data[i + 1], self.data[i + 2], self.data[i + 3]];
        assert(r@ =~= seq![self.byte(x as int, y as int, 0), self.byte(x as int, y as int, 1),
            self.byte(x as int, y as int, 2), self.byte(x as int, y as int, 3)]);
        r
    }
}

} // verus!
