use vstd::prelude::*;

verus! {

/// Physical address of the text-mode framebuffer.
pub const VGA_PTR: usize = 0xB8000;

pub const VGA_WIDTH: usize = 80;
pub const VGA_HEIGHT: usize = 25;
pub const VGA_SIZE: usize = 2000;

/// Columns a tab advances to a multiple of.
pub const TAB_SIZE: usize = 2;

/// Screen contents (character and attribute words, row-major), cursor
/// column and cursor row.
pub type Screen = (Seq<u16>, int, int);

/// The word for character `b` in attribute `color`.
pub open spec fn cell(b: u8, color: u8) -> u16 {
    (color as int * 256 + b as int) as u16
}

/// The screen moved up one row, the last row blanked. The cursor stays.
pub open spec fn scrolled(s: Screen, color: u8) -> Screen {
    (Seq::new(VGA_SIZE as nat, |i: int|
        if i < VGA_SIZE - VGA_WIDTH { s.0[i + VGA_WIDTH] } else { cell(0x20, color) }), s.1, s.2)
}

/// A line feed: first column of the next row, scrolling at the bottom.
pub open spec fn newline_screen(s: Screen, color: u8) -> Screen {
    if s.2 < VGA_HEIGHT - 1 {
        (s.0, 0, s.2 + 1)
    } else {
        let t = scrolled(s, color);
        (t.0, 0, t.2)
    }
}

/// A printable byte at the cursor, wrapping first at the end of a row.
pub open spec fn glyph_screen(s: Screen, b: u8, color: u8) -> Screen {
    let t = if s.1 >= VGA_WIDTH { newline_screen(s, color) } else { s };
    (t.0.update(t.2 * VGA_WIDTH + t.1, cell(b, color)), t.1 + 1, t.2)
}

/// The screen after one byte: carriage return, line feed, tab (spaces to
/// the next even column), backspace (erasing the previous cell, moving
/// back over a line start), or a printable byte.
pub open spec fn byte_screen(s: Screen, b: u8, color: u8) -> Screen {
    if b == 0x0D {
        (s.0, 0, s.2)
    } else if b == 0x0A {
        newline_screen(s, color)
    } else if b == 0x09 {
        let t = glyph_screen(s, 0x20, color);
        if s.1 % 2 == 0 { glyph_screen(t, 0x20, color) } else { t }
    } else if b == 0x08 {
        let (x, y) = if s.1 == 0 && s.2 > 0 {
            (VGA_WIDTH - 1, s.2 - 1)
        } else if s.1 > 0 {
            (s.1 - 1, s.2)
        } else {
            (s.1, s.2)
        };
        (s.0.update(y * VGA_WIDTH + x, cell(0x20, color)), x, y)
    } else {
        glyph_screen(s, b, color)
    }
}

/// The screen after the bytes `bs`, in order.
pub open spec fn bytes_screen(s: Screen, bs: Seq<u8>, color: u8) -> Screen
    decreases bs.len(),
{
    if bs.len() == 0 {
        s
    } else {
        bytes_screen(byte_screen(s, bs[0], color), bs.drop_first(), color)
    }
}

/// The VGA text terminal: cursor, attribute and an image of the screen.
pub struct TerminalDevice {
    x: usize,
    y: usize,
    color: u8,
    buf: Vec<u16>,
}

impl TerminalDevice {
    pub closed spec fn screen(&self) -> Screen {
        (self.buf@, self.x as int, self.y as int)
    }

    pub closed spec fn color_spec(&self) -> u8 {
        self.color
    }

    /// The screen is full size and the cursor on it (or just past the
    /// last column).
    pub open spec fn wf(&self) -> bool {
        &&& self.screen().0.len() == VGA_SIZE
        &&& 0 <= self.screen().1 <= VGA_WIDTH
        &&& 0 <= self.screen().2 < VGA_HEIGHT
    }

    /// A blank screen, light grey on black, cursor at the top left.
    pub fn init() -> (r: TerminalDevice)
        ensures
            r.wf(),
            r.color_spec() == 0x07,
            r.screen() == (Seq::new(VGA_SIZE as nat, |i: int| cell(0x20, 0x07)), 0int, 0int),
    {
        let mut term = TerminalDevice { x: 0, y: 0, color: 0x07, buf: vec![0u16; VGA_SIZE] };
        term.clear();
        term
    }

    /// Blanks the screen and homes the cursor.
    pub fn clear(&mut self)
        requires
            old(self).screen().0.len() == VGA_SIZE,
        ensures
            final(self).wf(),
            final(self).color_spec() == old(self).color_spec(),
            final(self).screen() == (Seq::new(VGA_SIZE as nat, |i: int| cell(0x20, old(self).color_spec())), 0int, 0int),
    {
        let chr = Self::chattr(0x20u8, self.color);
        let mut i: usize = 0;
        while i < VGA_SIZE
            invariant
                self.buf@.len() == VGA_SIZE,
                self.color == old(self).color,
                chr == cell(0x20, self.color),
                0 <= i <= VGA_SIZE,
                forall|k: int| 0 <= k < i ==> self.buf@[k] == chr,
            decreases VGA_SIZE - i,
        {
            self.buf.set(i, chr);
            i = i + 1;
        }
        self.x = 0;
        self.y = 0;
        assert(self.buf@ =~= Seq::new(VGA_SIZE as nat, |i: int| cell(0x20, self.color)));
    }

    /// The character word for `b` in `color`.
    pub fn chattr(b: u8, color: u8) -> (r: u16)
        ensures
            r == cell(b, color),
    {
        let r = ((color as u16) << 8u16) | (b as u16);
        assert(r == (color as u16) * 256 + (b as u16)) by (bit_vector)
            requires
                r == ((color as u16) << 8u16) | (b as u16),
        ;
        r
    }

    /// The screen contents.
    pub fn buffer(&self) -> (r: &Vec<u16>)
        ensures
            r@ == self.screen().0,
    {
        &self.buf
    }

    /// The cursor as an offset into the screen, for the hardware cursor.
    pub fn cursor_offset(&self) -> (r: usize)
        requires
            self.wf(),
        ensures
            r == self.screen().2 * VGA_WIDTH + self.screen().1,
    {
        self.y * VGA_WIDTH + self.x
    }

    fn scroll(&mut self)
        requires
            old(self).wf(),
        ensures
            final(self).wf(),
            final(self).color_spec() == old(self).color_spec(),
            final(self).screen() == scrolled(old(self).screen(), old(self).color_spec()),
    {
        let mut i: usize = 0;
        while i < VGA_SIZE - VGA_WIDTH
            invariant
                self.wf(),
                self.x == old(self).x,
                self.y == old(self).y,
                self.color == old(self).color,
                0 <= i <= VGA_SIZE - VGA_WIDTH,
                forall|k: int| 0 <= k < i ==> self.buf@[k] == old(self).buf@[k + VGA_WIDTH],
                forall|k: int| i <= k < VGA_SIZE ==> self.buf@[k] == old(self).buf@[k],
            decreases VGA_SIZE - VGA_WIDTH - i,
        {
            let v = self.buf[i + VGA_WIDTH];
            self.buf.set(i, v);
            i = i + 1;
        }
        let filler = Self::chattr(0x20u8, self.color);
        let mut x: usize = 0;
        while x < VGA_WIDTH
            invariant
                self.wf(),
                self.x == old(self).x,
                self.y == old(self).y,
                self.color == old(self).color,
                filler == cell(0x20, self.color),
                0 <= x <= VGA_WIDTH,
                forall|k: int| 0 <= k < VGA_SIZE - VGA_WIDTH ==> self.buf@[k] == old(self).buf@[k + VGA_WIDTH],
                forall|k: int| VGA_SIZE - VGA_WIDTH <= k < VGA_SIZE - VGA_WIDTH + x ==> self.buf@[k] == filler,
            decreases VGA_WIDTH - x,
        {
            self.buf.set(VGA_SIZE - VGA_WIDTH + x, filler);
            x = x + 1;
        }
        assert(self.buf@ =~= scrolled(old(self).screen(), self.color).0);
    }

    /// Moves to the start of the next line, scrolling at the bottom.
    pub fn new_line(&mut self)
        requires
            old(self).wf(),
        ensures
            final(self).wf(),
            final(self).color_spec() == old(self).color_spec(),
            final(self).screen() == newline_screen(old(self).screen(), old(self).color_spec()),
    {
        self.x = 0;
        if self.y < VGA_HEIGHT - 1 {
            self.y = self.y + 1;
        } else {
            self.scroll();
        }
    }

    fn put_glyph(&mut self, byte: u8)
        requires
            old(self).wf(),
        ensures
            final(self).wf(),
            final(self).color_spec() == old(self).color_spec(),
            final(self).screen() == glyph_screen(old(self).screen(), byte, old(self).color_spec()),
    {
        if self.x >= VGA_WIDTH {
            self.new_line();
        }
        let chr = Self::chattr(byte, self.color);
        let off = self.y * VGA_WIDTH + self.x;
        self.x = self.x + 1;
        self.buf.set(off, chr);
    }

    /// Writes one byte at the cursor.
    pub fn write_u8(&mut self, byte: u8)
        requires
            old(self).wf(),
        ensures
            final(self).wf(),
            final(self).color_spec() == old(self).color_spec(),
            final(self).screen() == byte_screen(old(self).screen(), byte, old(self).color_spec()),
    {
        if byte == 0x0D {
            self.x = 0;
        } else if byte == 0x0A {
            self.new_line();
        } else if byte == 0x09 {
            let even = self.x % TAB_SIZE == 0;
            self.put_glyph(0x20u8);
            if even {
                self.put_glyph(0x20u8);
            }
        } else if byte == 0x08 {
            let chr = Self::chattr(0x20u8, self.color);
            if self.x == 0 && self.y > 0 {
                self.y = self.y - 1;
                self.x = VGA_WIDTH - 1;
            } else if self.x > 0 {
                self.x = self.x - 1;
            }
            let off = self.y * VGA_WIDTH + self.x;
            self.buf.set(off, chr);
        } else {
            self.put_glyph(byte);
        }
    }

    /// Writes bytes in order.
    pub fn write_bytes(&mut self, val: &[u8])
        requires
            old(self).wf(),
        ensures
            final(self).wf(),
            final(self).color_spec() == old(self).color_spec(),
            final(self).screen() == bytes_screen(old(self).screen(), val@, old(self).color_spec()),
    {
        let n = val.len();
        let mut i: usize = 0;
        assert(val@.skip(0) =~= val@);
        while i < n
            invariant
                n == val@.len(),
                0 <= i <= n,
                self.wf(),
                self.color == old(self).color,
                bytes_screen(old(self).screen(), val@, self.color) == bytes_screen(self.screen(), val@.skip(i as int), self.color),
            decreases n - i,
        {
            self.write_u8(val[i]);
            proof {
                assert(val@.skip(i as int).drop_first() =~= val@.skip(i as int + 1));
            }
            i = i + 1;
        }
        assert(val@.skip(n as int) =~= Seq::<u8>::empty());
    }
}

} // verus!
